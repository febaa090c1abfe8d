//! The register machine that runs translated programs, as a step function:
//! each step performs one instruction of the innermost call and reports
//! whether to go on, to write a character, that the program finished, or
//! the error that stopped it. Whoever drives the steps does the writing.
use vstd::prelude::*;
use crate::instruction::{Instruction, OpCode};
use crate::text::{hex_padded, push_hex_padded, push_signed_decimal, signed_decimal, str_eq};
use crate::translate::lir::{functions_view, Function, FunctionV, Mochi};

verus! {

#[derive(Debug, Clone, Copy, PartialEq, Eq, Structural)]
pub enum RuntimeError {
    NoEntryPoint,
    PcExceeded,
    DivisionError(i64, i64),
    OutOfCharBounds(u32),
    WriteBufferFailed,
}

/// The human-readable description of a runtime error.
pub open spec fn runtime_error_message(e: RuntimeError) -> Seq<char> {
    match e {
        RuntimeError::DivisionError(dividend, divisor) => "divide error: "@ + signed_decimal(dividend as int)
            + ", "@ + signed_decimal(divisor as int),
        RuntimeError::NoEntryPoint => "no entry point"@,
        RuntimeError::PcExceeded => "PC exceeded"@,
        RuntimeError::OutOfCharBounds(n) => "out out char bounds: 0x"@ + hex_padded(n as nat, 8),
        RuntimeError::WriteBufferFailed => "failed writing buffer"@,
    }
}

impl RuntimeError {
    /// The human-readable description of the error.
    pub fn message(&self) -> (r: String)
        ensures
            r@ == runtime_error_message(*self),
    {
        let mut s = String::new();
        match self {
            RuntimeError::DivisionError(dividend, divisor) => {
                s.append("divide error: ");
                push_signed_decimal(&mut s, *dividend);
                s.append(", ");
                push_signed_decimal(&mut s, *divisor);
            },
            RuntimeError::NoEntryPoint => s.append("no entry point"),
            RuntimeError::PcExceeded => s.append("PC exceeded"),
            RuntimeError::OutOfCharBounds(n) => {
                s.append("out out char bounds: 0x");
                push_hex_padded(&mut s, *n as u64, 8);
            },
            RuntimeError::WriteBufferFailed => s.append("failed writing buffer"),
        }
        proof {
            assert(s@ =~= runtime_error_message(*self));
        }
        s
    }
}

/// The activation of a function: which function, the next instruction,
/// its registers, and the caller's register that receives its result.
#[derive(Debug)]
pub struct StackFrame {
    pub func: usize,
    pub pc: usize,
    pub registers: Vec<u64>,
    pub dst: u16,
}

/// The calls under way, the innermost last.
#[derive(Debug)]
pub struct Machine {
    pub stack: Vec<StackFrame>,
}

/// What a step asks of whoever drives the machine.
#[derive(Debug, Clone, Copy, PartialEq, Eq, Structural)]
pub enum Step {
    Continue,
    Write(char),
    Finished(u64),
    Failed(RuntimeError),
}

/// A frame: function index, next instruction, registers, result register.
pub type FrameV = (usize, usize, Seq<u64>, u16);

impl View for StackFrame {
    type V = FrameV;

    open spec fn view(&self) -> FrameV {
        (self.func, self.pc, self.registers@, self.dst)
    }
}

pub open spec fn stack_view(v: Seq<StackFrame>) -> Seq<FrameV> {
    v.map_values(|f: StackFrame| f@)
}

impl View for Machine {
    type V = Seq<FrameV>;

    open spec fn view(&self) -> Seq<FrameV> {
        stack_view(self.stack@)
    }
}

/// The outcome of a step: the next state, a character to write and the
/// next state, the program's result, an error, or a fault where the
/// instruction names what does not exist or an arithmetic step overflows.
pub enum StepV {
    Next(Seq<FrameV>),
    Output(u32, Seq<FrameV>),
    Finished(u64),
    Failed(RuntimeError),
    Abort,
}

/// Whether `u` is the code of a Unicode scalar value.
pub open spec fn is_scalar(u: u32) -> bool {
    u <= 0x10FFFF && !(0xD800 <= u <= 0xDFFF)
}

/// Calls `char::from_u32`, which gives the character whose code is `u`, if
/// `u` is the code of a Unicode scalar value, and `None` otherwise.
#[verifier::external_body]
fn char_from_u32(u: u32) -> (r: Option<char>)
    ensures
        r is Some <==> is_scalar(u),
        r matches Some(c) ==> c as u32 == u,
{
    char::from_u32(u)
}

/// The registers extended with zeros, or cut, to `n`.
pub open spec fn resized(regs: Seq<u64>, n: int) -> Seq<u64> {
    if n <= regs.len() {
        regs.subrange(0, n)
    } else {
        regs + Seq::new((n - regs.len()) as nat, |i: int| 0u64)
    }
}

/// The frame that a call of function `func` starts with.
pub open spec fn new_frame(fs: Seq<FunctionV>, func: usize, args: Seq<u64>, dst: u16) -> FrameV {
    (func, 0, resized(args, fs[func as int].register_count as int), dst)
}

/// The value of an instruction that combines two registers, its error, or
/// `None` where the operation is not such an instruction.
pub open spec fn binary_result(op: OpCode, l: u64, r: u64) -> Option<Result<u64, RuntimeError>> {
    match op {
        OpCode::AddI8 | OpCode::AddI16 | OpCode::AddI32 | OpCode::AddI64 | OpCode::AddU8 | OpCode::AddU16 | OpCode::AddU32 | OpCode::AddU64 => Some(Ok(l.wrapping_add(r))),
        OpCode::SubI8 | OpCode::SubI16 | OpCode::SubI32 | OpCode::SubI64 | OpCode::SubU8 | OpCode::SubU16 | OpCode::SubU32 | OpCode::SubU64 => Some(Ok(l.wrapping_sub(r))),
        OpCode::MulI8 | OpCode::MulI16 | OpCode::MulI32 | OpCode::MulI64 | OpCode::MulU8 | OpCode::MulU16 | OpCode::MulU32 | OpCode::MulU64 => Some(Ok(l.wrapping_mul(r))),
        OpCode::DivI8 => {
            let (x, y) = (l as i8, r as i8);
            match x.checked_div(y) {
                Some(q) => Some(Ok(q as u64)),
                None => Some(Err(RuntimeError::DivisionError(x as i64, y as i64))),
            }
        },
        OpCode::DivI16 => {
            let (x, y) = (l as i16, r as i16);
            match x.checked_div(y) {
                Some(q) => Some(Ok(q as u64)),
                None => Some(Err(RuntimeError::DivisionError(x as i64, y as i64))),
            }
        },
        OpCode::DivI32 => {
            let (x, y) = (l as i32, r as i32);
            match x.checked_div(y) {
                Some(q) => Some(Ok(q as u64)),
                None => Some(Err(RuntimeError::DivisionError(x as i64, y as i64))),
            }
        },
        OpCode::DivI64 => {
            let (x, y) = (l as i64, r as i64);
            match x.checked_div(y) {
                Some(q) => Some(Ok(q as u64)),
                None => Some(Err(RuntimeError::DivisionError(x as i64, y as i64))),
            }
        },
        OpCode::DivU8 => {
            let (x, y) = (l as u8, r as u8);
            match x.checked_div(y) {
                Some(q) => Some(Ok(q as u64)),
                None => Some(Err(RuntimeError::DivisionError(x as i64, y as i64))),
            }
        },
        OpCode::DivU16 => {
            let (x, y) = (l as u16, r as u16);
            match x.checked_div(y) {
                Some(q) => Some(Ok(q as u64)),
                None => Some(Err(RuntimeError::DivisionError(x as i64, y as i64))),
            }
        },
        OpCode::DivU32 => {
            let (x, y) = (l as u32, r as u32);
            match x.checked_div(y) {
                Some(q) => Some(Ok(q as u64)),
                None => Some(Err(RuntimeError::DivisionError(x as i64, y as i64))),
            }
        },
        OpCode::DivU64 => {
            let (x, y) = (l as u64, r as u64);
            match x.checked_div(y) {
                Some(q) => Some(Ok(q as u64)),
                None => Some(Err(RuntimeError::DivisionError(x as i64, y as i64))),
            }
        },
        OpCode::RemI8 => {
            let (x, y) = (l as i8, r as i8);
            match x.checked_rem(y) {
                Some(q) => Some(Ok(q as u64)),
                None => Some(Err(RuntimeError::DivisionError(x as i64, y as i64))),
            }
        },
        OpCode::RemI16 => {
            let (x, y) = (l as i16, r as i16);
            match x.checked_rem(y) {
                Some(q) => Some(Ok(q as u64)),
                None => Some(Err(RuntimeError::DivisionError(x as i64, y as i64))),
            }
        },
        OpCode::RemI32 => {
            let (x, y) = (l as i32, r as i32);
            match x.checked_rem(y) {
                Some(q) => Some(Ok(q as u64)),
                None => Some(Err(RuntimeError::DivisionError(x as i64, y as i64))),
            }
        },
        OpCode::RemI64 => {
            let (x, y) = (l as i64, r as i64);
            match x.checked_rem(y) {
                Some(q) => Some(Ok(q as u64)),
                None => Some(Err(RuntimeError::DivisionError(x as i64, y as i64))),
            }
        },
        OpCode::RemU8 => {
            let (x, y) = (l as u8, r as u8);
            match x.checked_rem(y) {
                Some(q) => Some(Ok(q as u64)),
                None => Some(Err(RuntimeError::DivisionError(x as i64, y as i64))),
            }
        },
        OpCode::RemU16 => {
            let (x, y) = (l as u16, r as u16);
            match x.checked_rem(y) {
                Some(q) => Some(Ok(q as u64)),
                None => Some(Err(RuntimeError::DivisionError(x as i64, y as i64))),
            }
        },
        OpCode::RemU32 => {
            let (x, y) = (l as u32, r as u32);
            match x.checked_rem(y) {
                Some(q) => Some(Ok(q as u64)),
                None => Some(Err(RuntimeError::DivisionError(x as i64, y as i64))),
            }
        },
        OpCode::RemU64 => {
            let (x, y) = (l as u64, r as u64);
            match x.checked_rem(y) {
                Some(q) => Some(Ok(q as u64)),
                None => Some(Err(RuntimeError::DivisionError(x as i64, y as i64))),
            }
        },
        OpCode::EQ => Some(Ok(if l == r { 1 } else { 0 })),
        OpCode::NE => Some(Ok(if l != r { 1 } else { 0 })),
        OpCode::And => Some(Ok(l & r)),
        OpCode::Or => Some(Ok(l | r)),
        OpCode::Xor => Some(Ok(l ^ r)),
        OpCode::LTI8 => Some(Ok(if (l as i8) < (r as i8) { 1 } else { 0 })),
        OpCode::LTI16 => Some(Ok(if (l as i16) < (r as i16) { 1 } else { 0 })),
        OpCode::LTI32 => Some(Ok(if (l as i32) < (r as i32) { 1 } else { 0 })),
        OpCode::LTI64 => Some(Ok(if (l as i64) < (r as i64) { 1 } else { 0 })),
        OpCode::LTU8 => Some(Ok(if (l as u8) < (r as u8) { 1 } else { 0 })),
        OpCode::LTU16 => Some(Ok(if (l as u16) < (r as u16) { 1 } else { 0 })),
        OpCode::LTU32 => Some(Ok(if (l as u32) < (r as u32) { 1 } else { 0 })),
        OpCode::LTU64 => Some(Ok(if (l as u64) < (r as u64) { 1 } else { 0 })),
        OpCode::LEI8 => Some(Ok(if (l as i8) <= (r as i8) { 1 } else { 0 })),
        OpCode::LEI16 => Some(Ok(if (l as i16) <= (r as i16) { 1 } else { 0 })),
        OpCode::LEI32 => Some(Ok(if (l as i32) <= (r as i32) { 1 } else { 0 })),
        OpCode::LEI64 => Some(Ok(if (l as i64) <= (r as i64) { 1 } else { 0 })),
        OpCode::LEU8 => Some(Ok(if (l as u8) <= (r as u8) { 1 } else { 0 })),
        OpCode::LEU16 => Some(Ok(if (l as u16) <= (r as u16) { 1 } else { 0 })),
        OpCode::LEU32 => Some(Ok(if (l as u32) <= (r as u32) { 1 } else { 0 })),
        OpCode::LEU64 => Some(Ok(if (l as u64) <= (r as u64) { 1 } else { 0 })),
        _ => None,
    }
}

/// The jump offset that the two halves of an operand give, read as a
/// 32-bit signed integer.
pub open spec fn jump_offset(b: u16, c: u16) -> int {
    if b < 0x8000 {
        b * 65536 + c
    } else {
        b * 65536 + c - 0x1_0000_0000
    }
}

pub open spec fn set_top(st: Seq<FrameV>, f: FrameV) -> Seq<FrameV> {
    st.update(st.len() - 1, f)
}

pub open spec fn with_pc(f: FrameV, pc: int) -> FrameV {
    (f.0, pc as usize, f.2, f.3)
}

pub open spec fn with_reg(f: FrameV, a: int, v: u64) -> FrameV {
    (f.0, f.1, f.2.update(a, v), f.3)
}

/// One step of the machine that runs the functions `fs`.
pub open spec fn step_spec(fs: Seq<FunctionV>, st: Seq<FrameV>) -> StepV {
    if st.len() == 0 || st.last().0 >= fs.len() {
        StepV::Abort
    } else {
        let f = st.last();
        let func = fs[f.0 as int];
        let regs = f.2;
        if f.1 >= func.code.len() {
            StepV::Failed(RuntimeError::PcExceeded)
        } else {
            let i = func.code[f.1 as int];
            let (a, b, c) = (i.1 as int, i.2 as int, i.3 as int);
            let next = f.1 + 1;
            match i.0 {
                OpCode::Nop => StepV::Next(set_top(st, with_pc(f, next))),
                OpCode::Const => if a < regs.len() && b < func.constants.len() {
                    StepV::Next(set_top(st, with_pc(with_reg(f, a, func.constants[b]), next)))
                } else {
                    StepV::Abort
                },
                OpCode::Mov => if a < regs.len() && b < regs.len() {
                    StepV::Next(set_top(st, with_pc(with_reg(f, a, regs[b]), next)))
                } else {
                    StepV::Abort
                },
                OpCode::Ret => if a < regs.len() {
                    let v = regs[a];
                    let rest = st.drop_last();
                    if rest.len() == 0 {
                        StepV::Finished(v)
                    } else {
                        let caller = rest.last();
                        if (f.3 as int) < caller.2.len() {
                            StepV::Next(set_top(rest, with_reg(caller, f.3 as int, v)))
                        } else {
                            StepV::Abort
                        }
                    }
                } else {
                    StepV::Abort
                },
                OpCode::FnCall => if a >= fs.len() {
                    StepV::Abort
                } else if a == 0 {
                    if b + 1 < regs.len() {
                        let u = regs[b + 1] as u32;
                        if is_scalar(u) {
                            StepV::Output(u, set_top(st, with_pc(f, next)))
                        } else {
                            StepV::Failed(RuntimeError::OutOfCharBounds(regs[b] as u32))
                        }
                    } else {
                        StepV::Abort
                    }
                } else if b + 1 + c <= regs.len() {
                    let args = regs.subrange(b + 1, b + 1 + c);
                    StepV::Next(set_top(st, with_pc(f, next)).push(new_frame(fs, a as usize, args, b as u16)))
                } else {
                    StepV::Abort
                },
                OpCode::NegI8 | OpCode::NegI16 | OpCode::NegI32 | OpCode::NegI64 => if a < regs.len() && b < regs.len() && regs[b] != 0 {
                    StepV::Next(set_top(st, with_pc(with_reg(f, a, ((!regs[b]) + 1) as u64), next)))
                } else {
                    StepV::Abort
                },
                OpCode::Inv => if a < regs.len() && b < regs.len() {
                    StepV::Next(set_top(st, with_pc(with_reg(f, a, !regs[b]), next)))
                } else {
                    StepV::Abort
                },
                OpCode::Jump | OpCode::JumpZ | OpCode::JumpNZ => {
                    let taken = match i.0 {
                        OpCode::Jump => true,
                        OpCode::JumpZ => a < regs.len() && regs[a] == 0,
                        _ => a < regs.len() && regs[a] != 0,
                    };
                    if i.0 != OpCode::Jump && a >= regs.len() {
                        StepV::Abort
                    } else if !taken {
                        StepV::Next(set_top(st, with_pc(f, next)))
                    } else {
                        let target = next + jump_offset(i.2, i.3);
                        if 0 <= target <= usize::MAX {
                            StepV::Next(set_top(st, with_pc(f, target)))
                        } else {
                            StepV::Abort
                        }
                    }
                },
                op => if a < regs.len() && b < regs.len() && c < regs.len() {
                    match binary_result(op, regs[b], regs[c]) {
                        Some(Ok(v)) => StepV::Next(set_top(st, with_pc(with_reg(f, a, v), next))),
                        Some(Err(e)) => StepV::Failed(e),
                        None => StepV::Abort,
                    }
                } else {
                    StepV::Abort
                },
            }
        }
    }
}

/// The executable counterpart of `binary_result`.
fn binary(op: OpCode, l: u64, r: u64) -> (res: Option<Result<u64, RuntimeError>>)
    ensures
        res == binary_result(op, l, r),
{
    match op {
        OpCode::AddI8 | OpCode::AddI16 | OpCode::AddI32 | OpCode::AddI64 | OpCode::AddU8 | OpCode::AddU16 | OpCode::AddU32 | OpCode::AddU64 => Some(Ok(l.wrapping_add(r))),
        OpCode::SubI8 | OpCode::SubI16 | OpCode::SubI32 | OpCode::SubI64 | OpCode::SubU8 | OpCode::SubU16 | OpCode::SubU32 | OpCode::SubU64 => Some(Ok(l.wrapping_sub(r))),
        OpCode::MulI8 | OpCode::MulI16 | OpCode::MulI32 | OpCode::MulI64 | OpCode::MulU8 | OpCode::MulU16 | OpCode::MulU32 | OpCode::MulU64 => Some(Ok(l.wrapping_mul(r))),
        OpCode::DivI8 => {
            let (x, y) = (l as i8, r as i8);
            match x.checked_div(y) {
                Some(q) => Some(Ok(q as u64)),
                None => Some(Err(RuntimeError::DivisionError(x as i64, y as i64))),
            }
        },
        OpCode::DivI16 => {
            let (x, y) = (l as i16, r as i16);
            match x.checked_div(y) {
                Some(q) => Some(Ok(q as u64)),
                None => Some(Err(RuntimeError::DivisionError(x as i64, y as i64))),
            }
        },
        OpCode::DivI32 => {
            let (x, y) = (l as i32, r as i32);
            match x.checked_div(y) {
                Some(q) => Some(Ok(q as u64)),
                None => Some(Err(RuntimeError::DivisionError(x as i64, y as i64))),
            }
        },
        OpCode::DivI64 => {
            let (x, y) = (l as i64, r as i64);
            match x.checked_div(y) {
                Some(q) => Some(Ok(q as u64)),
                None => Some(Err(RuntimeError::DivisionError(x as i64, y as i64))),
            }
        },
        OpCode::DivU8 => {
            let (x, y) = (l as u8, r as u8);
            match x.checked_div(y) {
                Some(q) => Some(Ok(q as u64)),
                None => Some(Err(RuntimeError::DivisionError(x as i64, y as i64))),
            }
        },
        OpCode::DivU16 => {
            let (x, y) = (l as u16, r as u16);
            match x.checked_div(y) {
                Some(q) => Some(Ok(q as u64)),
                None => Some(Err(RuntimeError::DivisionError(x as i64, y as i64))),
            }
        },
        OpCode::DivU32 => {
            let (x, y) = (l as u32, r as u32);
            match x.checked_div(y) {
                Some(q) => Some(Ok(q as u64)),
                None => Some(Err(RuntimeError::DivisionError(x as i64, y as i64))),
            }
        },
        OpCode::DivU64 => {
            let (x, y) = (l as u64, r as u64);
            match x.checked_div(y) {
                Some(q) => Some(Ok(q as u64)),
                None => Some(Err(RuntimeError::DivisionError(x as i64, y as i64))),
            }
        },
        OpCode::RemI8 => {
            let (x, y) = (l as i8, r as i8);
            match x.checked_rem(y) {
                Some(q) => Some(Ok(q as u64)),
                None => Some(Err(RuntimeError::DivisionError(x as i64, y as i64))),
            }
        },
        OpCode::RemI16 => {
            let (x, y) = (l as i16, r as i16);
            match x.checked_rem(y) {
                Some(q) => Some(Ok(q as u64)),
                None => Some(Err(RuntimeError::DivisionError(x as i64, y as i64))),
            }
        },
        OpCode::RemI32 => {
            let (x, y) = (l as i32, r as i32);
            match x.checked_rem(y) {
                Some(q) => Some(Ok(q as u64)),
                None => Some(Err(RuntimeError::DivisionError(x as i64, y as i64))),
            }
        },
        OpCode::RemI64 => {
            let (x, y) = (l as i64, r as i64);
            match x.checked_rem(y) {
                Some(q) => Some(Ok(q as u64)),
                None => Some(Err(RuntimeError::DivisionError(x as i64, y as i64))),
            }
        },
        OpCode::RemU8 => {
            let (x, y) = (l as u8, r as u8);
            match x.checked_rem(y) {
                Some(q) => Some(Ok(q as u64)),
                None => Some(Err(RuntimeError::DivisionError(x as i64, y as i64))),
            }
        },
        OpCode::RemU16 => {
            let (x, y) = (l as u16, r as u16);
            match x.checked_rem(y) {
                Some(q) => Some(Ok(q as u64)),
                None => Some(Err(RuntimeError::DivisionError(x as i64, y as i64))),
            }
        },
        OpCode::RemU32 => {
            let (x, y) = (l as u32, r as u32);
            match x.checked_rem(y) {
                Some(q) => Some(Ok(q as u64)),
                None => Some(Err(RuntimeError::DivisionError(x as i64, y as i64))),
            }
        },
        OpCode::RemU64 => {
            let (x, y) = (l as u64, r as u64);
            match x.checked_rem(y) {
                Some(q) => Some(Ok(q as u64)),
                None => Some(Err(RuntimeError::DivisionError(x as i64, y as i64))),
            }
        },
        OpCode::EQ => Some(Ok(if l == r { 1 } else { 0 })),
        OpCode::NE => Some(Ok(if l != r { 1 } else { 0 })),
        OpCode::And => Some(Ok(l & r)),
        OpCode::Or => Some(Ok(l | r)),
        OpCode::Xor => Some(Ok(l ^ r)),
        OpCode::LTI8 => Some(Ok(if (l as i8) < (r as i8) { 1 } else { 0 })),
        OpCode::LTI16 => Some(Ok(if (l as i16) < (r as i16) { 1 } else { 0 })),
        OpCode::LTI32 => Some(Ok(if (l as i32) < (r as i32) { 1 } else { 0 })),
        OpCode::LTI64 => Some(Ok(if (l as i64) < (r as i64) { 1 } else { 0 })),
        OpCode::LTU8 => Some(Ok(if (l as u8) < (r as u8) { 1 } else { 0 })),
        OpCode::LTU16 => Some(Ok(if (l as u16) < (r as u16) { 1 } else { 0 })),
        OpCode::LTU32 => Some(Ok(if (l as u32) < (r as u32) { 1 } else { 0 })),
        OpCode::LTU64 => Some(Ok(if (l as u64) < (r as u64) { 1 } else { 0 })),
        OpCode::LEI8 => Some(Ok(if (l as i8) <= (r as i8) { 1 } else { 0 })),
        OpCode::LEI16 => Some(Ok(if (l as i16) <= (r as i16) { 1 } else { 0 })),
        OpCode::LEI32 => Some(Ok(if (l as i32) <= (r as i32) { 1 } else { 0 })),
        OpCode::LEI64 => Some(Ok(if (l as i64) <= (r as i64) { 1 } else { 0 })),
        OpCode::LEU8 => Some(Ok(if (l as u8) <= (r as u8) { 1 } else { 0 })),
        OpCode::LEU16 => Some(Ok(if (l as u16) <= (r as u16) { 1 } else { 0 })),
        OpCode::LEU32 => Some(Ok(if (l as u32) <= (r as u32) { 1 } else { 0 })),
        OpCode::LEU64 => Some(Ok(if (l as u64) <= (r as u64) { 1 } else { 0 })),
        _ => None,
    }
}

/// The first position from `k` on of a function named `name`, or -1.
pub open spec fn entry_index(fs: Seq<FunctionV>, name: Seq<char>, k: int) -> int
    decreases fs.len() - k,
{
    if k < 0 || k >= fs.len() {
        -1
    } else if fs[k].name == name {
        k
    } else {
        entry_index(fs, name, k + 1)
    }
}

/// The state that running a program starts in: a call of the first
/// function named like the entry point, with no arguments; `None` where
/// that function's id names no function.
pub open spec fn start_spec(fs: Seq<FunctionV>, entry: Seq<char>) -> Option<Result<Seq<FrameV>, RuntimeError>> {
    let i = entry_index(fs, entry, 0);
    if i < 0 {
        Some(Err(RuntimeError::NoEntryPoint))
    } else {
        let fid = fs[i].func_id;
        if fid >= fs.len() {
            None
        } else {
            Some(Ok(seq![new_frame(fs, fid as usize, seq![], 0)]))
        }
    }
}

impl StackFrame {
    /// A frame for a call of function `func` with the arguments `registers`,
    /// which are extended with zeros, or cut, to the function's register
    /// count.
    pub fn new(mochi: &Mochi, func: usize, registers: Vec<u64>, dst: u16) -> (r: Self)
        requires
            func < mochi@.0.len(),
        ensures
            r@ == new_frame(mochi@.0, func, registers@, dst),
    {
        proof {
            assert(mochi@.0[func as int] == mochi.functions@[func as int]@);
        }
        let n = mochi.functions[func].register_count as usize;
        let mut registers = registers;
        let ghost args = registers@;
        registers.truncate(n);
        while registers.len() < n
            invariant
                n == mochi@.0[func as int].register_count as int,
                registers@.len() <= n,
                n <= args.len() ==> registers@ == args.subrange(0, n as int),
                n > args.len() ==> registers@.len() >= args.len() && registers@ == args + Seq::new(
                    (registers@.len() - args.len()) as nat,
                    |i: int| 0u64,
                ),
            decreases n - registers@.len(),
        {
            registers.push(0);
        }
        proof {
            assert(registers@ =~= resized(args, n as int));
        }
        StackFrame { func, pc: 0, registers, dst }
    }
}

impl Machine {
    /// The machine that runs `mochi` from its entry point.
    pub fn start(mochi: &Mochi) -> (r: Result<Machine, RuntimeError>)
        requires
            start_spec(mochi@.0, mochi@.1) is Some,
        ensures
            match start_spec(mochi@.0, mochi@.1) {
                Some(Ok(st)) => r matches Ok(m) && m@ == st,
                Some(Err(e)) => r == Err::<Machine, RuntimeError>(e),
                None => true,
            },
    {
        let mut k: usize = 0;
        while k < mochi.functions.len()
            invariant
                k <= mochi@.0.len(),
                start_spec(mochi@.0, mochi@.1) is Some,
                entry_index(mochi@.0, mochi@.1, 0) == entry_index(mochi@.0, mochi@.1, k as int),
            decreases mochi@.0.len() - k,
        {
            proof {
                assert(mochi@.0[k as int] == mochi.functions@[k as int]@);
            }
            if mochi.functions[k].name == mochi.entry_point {
                let fid = mochi.functions[k].func_id.0 as usize;
                let frame = StackFrame::new(mochi, fid, Vec::new(), 0);
                let mut stack = Vec::new();
                stack.push(frame);
                let m = Machine { stack };
                proof {
                    assert(m@ =~= seq![frame@]);
                }
                return Ok(m);
            }
            k += 1;
        }
        Err(RuntimeError::NoEntryPoint)
    }
}

impl Machine {
    /// Performs one instruction of the innermost call.
    #[verifier::rlimit(60)]
    pub fn step(&mut self, mochi: &Mochi) -> (r: Step)
        requires
            !(step_spec(mochi@.0, old(self)@) is Abort),
        ensures
            match step_spec(mochi@.0, old(self)@) {
                StepV::Next(st) => r == Step::Continue && final(self)@ == st,
                StepV::Output(code, st) => r matches Step::Write(ch) && ch as u32 == code && final(self)@ == st,
                StepV::Finished(v) => r == Step::Finished(v),
                StepV::Failed(e) => r == Step::Failed(e) && final(self)@ == old(self)@,
                StepV::Abort => true,
            },
    {
        let ghost st = self@;
        let ghost fs = mochi@.0;
        let mut frame = self.stack.pop().unwrap();
        proof {
            assert(self@ =~= st.drop_last());
            assert(frame@ == st.last());
            assert(fs[frame.func as int] == mochi.functions@[frame.func as int]@);
        }
        let func = &mochi.functions[frame.func];
        if frame.pc >= func.code.len() {
            self.stack.push(frame);
            proof {
                assert(self@ =~= st);
            }
            return Step::Failed(RuntimeError::PcExceeded);
        }
        let insn = func.code[frame.pc];
        let a = insn.1 as usize;
        let b = insn.2 as usize;
        let c = insn.3 as usize;
        let next = frame.pc + 1;
        match insn.0 {
            OpCode::Nop => {
                frame.pc = next;
                self.push_frame(frame);
                Step::Continue
            },
            OpCode::Const => {
                let v = func.constants[b];
                frame.registers.set(a, v);
                frame.pc = next;
                self.push_frame(frame);
                Step::Continue
            },
            OpCode::Mov => {
                let v = frame.registers[b];
                frame.registers.set(a, v);
                frame.pc = next;
                self.push_frame(frame);
                Step::Continue
            },
            OpCode::Ret => {
                let v = frame.registers[a];
                match self.stack.pop() {
                    None => Step::Finished(v),
                    Some(mut caller) => {
                        proof {
                            assert(caller@ == st.drop_last().last());
                        }
                        let dst = frame.dst as usize;
                        caller.registers.set(dst, v);
                        self.push_frame(caller);
                        proof {
                            assert(self@ =~= set_top(st.drop_last(), with_reg(st.drop_last().last(), dst as int, v)));
                        }
                        Step::Continue
                    },
                }
            },
            OpCode::FnCall => {
                if a == 0 {
                    let u = frame.registers[b + 1] as u32;
                    match char_from_u32(u) {
                        Some(ch) => {
                            frame.pc = next;
                            self.push_frame(frame);
                            Step::Write(ch)
                        },
                        None => {
                            let e = frame.registers[b] as u32;
                            self.stack.push(frame);
                            proof {
                                assert(self@ =~= st);
                            }
                            Step::Failed(RuntimeError::OutOfCharBounds(e))
                        },
                    }
                } else {
                    assert(b + 1 + c <= frame.registers@.len());
                    let mut args: Vec<u64> = Vec::new();
                    let mut k = b + 1;
                    let end = b + 1 + c;
                    while k < end
                        invariant
                            end == b + 1 + c,
                            b + 1 <= k <= end,
                            end <= frame.registers@.len(),
                            args@ == frame.registers@.subrange(b + 1, k as int),
                        decreases end - k,
                    {
                        args.push(frame.registers[k]);
                        k += 1;
                        proof {
                            assert(args@ =~= frame.registers@.subrange(b + 1, k as int));
                        }
                    }
                    let callee = StackFrame::new(mochi, a, args, b as u16);
                    frame.pc = next;
                    self.push_frame(frame);
                    let ghost mid = self@;
                    self.stack.push(callee);
                    proof {
                        assert(self@ =~= mid.push(callee@));
                    }
                    Step::Continue
                }
            },
            OpCode::NegI8 | OpCode::NegI16 | OpCode::NegI32 | OpCode::NegI64 => {
                let x = frame.registers[b];
                assert(x != 0 ==> !x < 0xffff_ffff_ffff_ffffu64) by (bit_vector);
                frame.registers.set(a, (!x) + 1);
                frame.pc = next;
                self.push_frame(frame);
                Step::Continue
            },
            OpCode::Inv => {
                let x = frame.registers[b];
                frame.registers.set(a, !x);
                frame.pc = next;
                self.push_frame(frame);
                Step::Continue
            },
            OpCode::Jump | OpCode::JumpZ | OpCode::JumpNZ => {
                let taken = match insn.0 {
                    OpCode::Jump => true,
                    OpCode::JumpZ => frame.registers[a] == 0,
                    _ => frame.registers[a] != 0,
                };
                if taken {
                    let offset: i64 = if insn.2 < 0x8000 {
                        insn.2 as i64 * 65536 + insn.3 as i64
                    } else {
                        insn.2 as i64 * 65536 + insn.3 as i64 - 0x1_0000_0000
                    };
                    let target = next as i128 + offset as i128;
                    frame.pc = target as usize;
                } else {
                    frame.pc = next;
                }
                self.push_frame(frame);
                Step::Continue
            },
            op => {
                let l = frame.registers[b];
                let r = frame.registers[c];
                match binary(op, l, r) {
                    Some(Ok(v)) => {
                        frame.registers.set(a, v);
                        frame.pc = next;
                        self.push_frame(frame);
                        Step::Continue
                    },
                    Some(Err(e)) => {
                        self.stack.push(frame);
                        proof {
                            assert(self@ =~= st);
                        }
                        Step::Failed(e)
                    },
                    None => Step::Continue,
                }
            },
        }
    }

    /// Puts a frame back as the innermost.
    fn push_frame(&mut self, frame: StackFrame)
        ensures
            final(self)@ == old(self)@.push(frame@),
    {
        self.stack.push(frame);
        proof {
            assert(final(self)@ =~= old(self)@.push(frame@));
        }
    }
}

impl Machine {
    /// Whether the next step is defined: the innermost call exists, and its
    /// instruction names registers, constants and functions that exist and
    /// overflows nothing. Where it is not, the step is a fault, and the
    /// machine must not be stepped.
    pub fn can_step(&self, mochi: &Mochi) -> (r: bool)
        ensures
            r == !(step_spec(mochi@.0, self@) is Abort),
    {
        let ghost st = self@;
        let ghost fs = mochi@.0;
        let n = self.stack.len();
        if n == 0 {
            return false;
        }
        let frame = &self.stack[n - 1];
        proof {
            assert(frame@ == st.last());
        }
        if frame.func >= mochi.functions.len() {
            return false;
        }
        proof {
            assert(fs[frame.func as int] == mochi.functions@[frame.func as int]@);
        }
        let func = &mochi.functions[frame.func];
        if frame.pc >= func.code.len() {
            return true;
        }
        let insn = func.code[frame.pc];
        let a = insn.1 as usize;
        let b = insn.2 as usize;
        let c = insn.3 as usize;
        let len = frame.registers.len();
        let next = frame.pc + 1;
        match insn.0 {
            OpCode::Nop => true,
            OpCode::Const => a < len && b < func.constants.len(),
            OpCode::Mov => a < len && b < len,
            OpCode::Ret => {
                if a >= len {
                    return false;
                }
                if n == 1 {
                    return true;
                }
                let caller = &self.stack[n - 2];
                proof {
                    assert(caller@ == st.drop_last().last());
                }
                (frame.dst as usize) < caller.registers.len()
            },
            OpCode::FnCall => if a >= mochi.functions.len() {
                false
            } else if a == 0 {
                b + 1 < len
            } else {
                b + 1 + c <= len
            },
            OpCode::NegI8 | OpCode::NegI16 | OpCode::NegI32 | OpCode::NegI64 => a < len && b < len && frame.registers[b] != 0,
            OpCode::Inv => a < len && b < len,
            OpCode::Jump | OpCode::JumpZ | OpCode::JumpNZ => {
                let taken = match insn.0 {
                    OpCode::Jump => true,
                    OpCode::JumpZ => {
                        if a >= len {
                            return false;
                        }
                        frame.registers[a] == 0
                    },
                    _ => {
                        if a >= len {
                            return false;
                        }
                        frame.registers[a] != 0
                    },
                };
                if !taken {
                    return true;
                }
                let offset: i64 = if insn.2 < 0x8000 {
                    insn.2 as i64 * 65536 + insn.3 as i64
                } else {
                    insn.2 as i64 * 65536 + insn.3 as i64 - 0x1_0000_0000
                };
                let target = next as i128 + offset as i128;
                0 <= target && target <= usize::MAX as i128
            },
            op => a < len && b < len && c < len && binary(op, frame.registers[b], frame.registers[c]).is_some(),
        }
    }
}

} // verus!
