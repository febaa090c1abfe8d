//! What the instructions compute and what the lexer skips, stated in
//! integer arithmetic and by code point, and the laws that tie the
//! instruction tables, the comparison translation and the lexer to it.
use vstd::prelude::*;
use crate::instruction::{typed_op, Instruction, OpCode};
use crate::runner::{binary_result, set_top, step_spec, FrameV, RuntimeError, StepV};
use crate::translate::lir::FunctionV;
use crate::syntax::ast::{BinOp, Expression, Spanned, TypeName};
use crate::syntax::lexer::{is_integer_type, lex_from, scan, skip_ws, PrimitiveType, Span};
use crate::text::is_ascii_ws;
use crate::translate::model::{compare_insn, expr_code, is_logical, Outcome};
use crate::translate::env::{GEnvV, LEnvV};
use crate::translate::typing::fallback;
use crate::laws::typed_ops_exist;

verus! {

/* Values of the integer types */

/// How many values an integer type of `bits` bits has.
pub open spec fn modulus(bits: nat) -> int {
    if bits == 8 {
        0x100
    } else if bits == 16 {
        0x1_0000
    } else if bits == 32 {
        0x1_0000_0000
    } else {
        0x1_0000_0000_0000_0000
    }
}

/// The width of a primitive type in bits.
pub open spec fn type_bits(p: PrimitiveType) -> nat {
    match p {
        PrimitiveType::I8 | PrimitiveType::U8 => 8,
        PrimitiveType::I16 | PrimitiveType::U16 => 16,
        PrimitiveType::I32 | PrimitiveType::U32 => 32,
        _ => 64,
    }
}

/// Whether a primitive type is a signed integer type.
pub open spec fn is_signed(p: PrimitiveType) -> bool {
    p == PrimitiveType::I8 || p == PrimitiveType::I16 || p == PrimitiveType::I32 || p == PrimitiveType::I64
}

/// A machine integer type: an integer type with a width.
pub open spec fn is_machine_int(p: PrimitiveType) -> bool {
    is_integer_type(p) && p != PrimitiveType::Integer
}

/// The integer that a register holds as a value of type `p`: its low
/// `type_bits(p)` bits, read in two's complement where `p` is signed.
pub open spec fn value_at(p: PrimitiveType, l: u64) -> int {
    let m = modulus(type_bits(p));
    let u = (l as int) % m;
    if is_signed(p) && u >= m / 2 {
        u - m
    } else {
        u
    }
}

/// The casts of a register to each integer type give its value there.
proof fn lemma_casts(l: u64)
    ensures
        (l as i8) as int == value_at(PrimitiveType::I8, l),
        (l as u8) as int == value_at(PrimitiveType::U8, l),
        (l as i16) as int == value_at(PrimitiveType::I16, l),
        (l as u16) as int == value_at(PrimitiveType::U16, l),
        (l as i32) as int == value_at(PrimitiveType::I32, l),
        (l as u32) as int == value_at(PrimitiveType::U32, l),
        (l as i64) as int == value_at(PrimitiveType::I64, l),
        (l as u64) as int == value_at(PrimitiveType::U64, l),
{
    assert((l as i8) as int == if l % 0x100 >= 0x80 { l % 0x100 - 0x100 } else { (l % 0x100) as int }) by (bit_vector);
    assert((l as u8) as int == l % 0x100) by (bit_vector);
    assert((l as i16) as int == if l % 0x1_0000 >= 0x8000 { l % 0x1_0000 - 0x1_0000 } else { (l % 0x1_0000) as int })
        by (bit_vector);
    assert((l as u16) as int == l % 0x1_0000) by (bit_vector);
    assert((l as i32) as int == if l % 0x1_0000_0000 >= 0x8000_0000 {
        l % 0x1_0000_0000 - 0x1_0000_0000
    } else {
        (l % 0x1_0000_0000) as int
    }) by (bit_vector);
    assert((l as u32) as int == l % 0x1_0000_0000) by (bit_vector);
    vstd::arithmetic::div_mod::lemma_small_mod(l as nat, 0x1_0000_0000_0000_0000);
    assert((l as i64) as int == if l >= 0x8000_0000_0000_0000 {
        l - 0x1_0000_0000_0000_0000int
    } else {
        l as int
    }) by (bit_vector);
}

/* Comparisons */

/// The order instructions of each machine integer type compare the values
/// that the registers hold at that type: `<` gives 1 exactly where the
/// first value is below the second, `<=` where it is not above, and 0
/// otherwise.
pub proof fn order_instructions_compare_values(p: PrimitiveType, l: u64, r: u64)
    requires
        is_machine_int(p),
    ensures
        typed_op(BinOp::LT, p) matches Some(o) && binary_result(o, l, r) == Some(
            Ok::<u64, RuntimeError>(if value_at(p, l) < value_at(p, r) { 1u64 } else { 0u64 }),
        ),
        typed_op(BinOp::LE, p) matches Some(o) && binary_result(o, l, r) == Some(
            Ok::<u64, RuntimeError>(if value_at(p, l) <= value_at(p, r) { 1u64 } else { 0u64 }),
        ),
{
    lemma_casts(l);
    lemma_casts(r);
}

/* Division */

pub open spec fn abs(x: int) -> int {
    if x < 0 {
        -x
    } else {
        x
    }
}

/// The quotient rounded toward zero.
pub open spec fn tdiv(x: int, y: int) -> int {
    let q = abs(x) / abs(y);
    if (x < 0) == (y < 0) {
        q
    } else {
        -q
    }
}

/// The remainder of the quotient rounded toward zero: its magnitude is
/// that of the dividend modulo that of the divisor, and it takes the
/// dividend's sign.
pub open spec fn trem(x: int, y: int) -> int {
    let m = abs(x) % abs(y);
    if x < 0 {
        -m
    } else {
        m
    }
}

/// An integer below 2^64 read as a 64-bit two's complement number.
pub open spec fn wrap64(v: int) -> int {
    if v >= 0x8000_0000_0000_0000 {
        v - 0x1_0000_0000_0000_0000
    } else {
        v
    }
}

/// A division or remainder at type `p` fails: the divisor is zero, or the
/// quotient of the least signed value by -1 would not fit.
pub open spec fn division_fails(p: PrimitiveType, x: int, y: int) -> bool {
    y == 0 || (is_signed(p) && x == -(modulus(type_bits(p)) / 2) && y == -1)
}

/// The register that holds the integer `q`, of magnitude below 2^64, in
/// 64-bit two's complement.
pub open spec fn register_of(q: int) -> u64 {
    if q < 0 {
        (q + 0x1_0000_0000_0000_0000) as u64
    } else {
        q as u64
    }
}

/// What a division or remainder at type `p` gives for the values `x` and
/// `y`: the error that names them, or the register holding `q`.
pub open spec fn division_outcome(p: PrimitiveType, x: int, y: int, q: int) -> Option<Result<u64, RuntimeError>> {
    if division_fails(p, x, y) {
        Some(Err(RuntimeError::DivisionError(wrap64(x) as i64, wrap64(y) as i64)))
    } else {
        Some(Ok(register_of(q)))
    }
}

proof fn lemma_quotient_range(x: int, y: int, m: int)
    requires
        m > 0,
        -m <= x < m,
        y != 0,
        !(x == -m && y == -1),
    ensures
        -m <= tdiv(x, y) < m,
        abs(x) % abs(y) < abs(y),
        0 <= abs(x) % abs(y),
        x == 0 ==> tdiv(x, y) == 0 && trem(x, y) == 0,
{
    vstd::arithmetic::div_mod::lemma_div_is_ordered_by_denominator(abs(x), 1, abs(y));
    vstd::arithmetic::div_mod::lemma_div_basics(abs(x));
    vstd::arithmetic::div_mod::lemma_div_pos_is_pos(abs(x), abs(y));
    vstd::arithmetic::div_mod::lemma_mod_pos_bound(abs(x), abs(y));
    if abs(y) >= 2 {
        vstd::arithmetic::div_mod::lemma_div_is_ordered_by_denominator(abs(x), 2, abs(y));
    }
    if x == 0 {
        vstd::arithmetic::div_mod::lemma_div_basics(abs(y));
        vstd::arithmetic::div_mod::lemma_small_mod(0, abs(y) as nat);
    }
}

proof fn lemma_truncated_cases(x: int, d: int)
    requires
        d != 0,
    ensures
        tdiv(x, d) == if x == 0 {
            0
        } else if x > 0 && d > 0 {
            x / d
        } else if x < 0 && d < 0 {
            (x * -1) / (d * -1)
        } else if x < 0 {
            ((x * -1) / d) * -1
        } else {
            (x / (d * -1)) * -1
        },
        trem(x, d) == if x == 0 {
            0
        } else if x > 0 && d > 0 {
            x % d
        } else if x < 0 && d < 0 {
            ((x * -1) % (d * -1)) * -1
        } else if x < 0 {
            ((x * -1) % d) * -1
        } else {
            x % (d * -1)
        },
{
    vstd::arithmetic::div_mod::lemma_div_basics(abs(d));
    vstd::arithmetic::div_mod::lemma_small_mod(0, abs(d) as nat);
}

/// Widening casts keep the value.
proof fn lemma_widen(a: i8, b: i16, c: i32, d: i64, e: u8, f: u16, g: u32)
    ensures
        (a as i64) as int == a as int,
        (b as i64) as int == b as int,
        (c as i64) as int == c as int,
        (e as i64) as int == e as int,
        (f as i64) as int == f as int,
        (g as i64) as int == g as int,
        (a as u64) == register_of(a as int),
        (b as u64) == register_of(b as int),
        (c as u64) == register_of(c as int),
        (d as u64) == register_of(d as int),
        (e as u64) as int == e as int,
        (f as u64) as int == f as int,
        (g as u64) as int == g as int,
{
    assert((a as i64) as int == a as int) by (bit_vector);
    assert((b as i64) as int == b as int) by (bit_vector);
    assert((c as i64) as int == c as int) by (bit_vector);
    assert((e as i64) as int == e as int) by (bit_vector);
    assert((f as i64) as int == f as int) by (bit_vector);
    assert((g as i64) as int == g as int) by (bit_vector);
    assert((a as u64) as int == if a < 0 { a as int + 0x1_0000_0000_0000_0000int } else { a as int }) by (bit_vector);
    assert((b as u64) as int == if b < 0 { b as int + 0x1_0000_0000_0000_0000int } else { b as int }) by (bit_vector);
    assert((c as u64) as int == if c < 0 { c as int + 0x1_0000_0000_0000_0000int } else { c as int }) by (bit_vector);
    assert((d as u64) as int == if d < 0 { d as int + 0x1_0000_0000_0000_0000int } else { d as int }) by (bit_vector);
    assert((e as u64) as int == e as int) by (bit_vector);
    assert((f as u64) as int == f as int) by (bit_vector);
    assert((g as u64) as int == g as int) by (bit_vector);
}

#[verifier::rlimit(60)]
proof fn lemma_division_i8(l: u64, r: u64)
    ensures
        binary_result(typed_op(BinOp::Div, PrimitiveType::I8).unwrap(), l, r) == division_outcome(
            PrimitiveType::I8,
            value_at(PrimitiveType::I8, l),
            value_at(PrimitiveType::I8, r),
            tdiv(value_at(PrimitiveType::I8, l), value_at(PrimitiveType::I8, r)),
        ),
        binary_result(typed_op(BinOp::Rem, PrimitiveType::I8).unwrap(), l, r) == division_outcome(
            PrimitiveType::I8,
            value_at(PrimitiveType::I8, l),
            value_at(PrimitiveType::I8, r),
            trem(value_at(PrimitiveType::I8, l), value_at(PrimitiveType::I8, r)),
        ),
{
    lemma_casts(l);
    lemma_casts(r);
    lemma_widen(l as i8, l as i16, l as i32, l as i64, l as u8, l as u16, l as u32);
    lemma_widen(r as i8, r as i16, r as i32, r as i64, r as u8, r as u16, r as u32);
    let p = PrimitiveType::I8;
    let x = value_at(p, l);
    let y = value_at(p, r);
    let m = modulus(type_bits(p));
    if y != 0 {
        lemma_truncated_cases(x, y);
    }
    vstd::arithmetic::div_mod::lemma_div_basics(abs(x));
    let q = tdiv(x, y);
    let rm = trem(x, y);
    lemma_widen(q as i8, q as i16, q as i32, q as i64, q as u8, q as u16, q as u32);
    lemma_widen(rm as i8, rm as i16, rm as i32, rm as i64, rm as u8, rm as u16, rm as u32);
    if y != 0 && !(is_signed(p) && x == -(m / 2) && y == -1) {
        if is_signed(p) {
            lemma_quotient_range(x, y, m / 2);
        } else {
            lemma_quotient_range(x, y, m);
        }
    }
}

#[verifier::rlimit(60)]
proof fn lemma_division_u8(l: u64, r: u64)
    ensures
        binary_result(typed_op(BinOp::Div, PrimitiveType::U8).unwrap(), l, r) == division_outcome(
            PrimitiveType::U8,
            value_at(PrimitiveType::U8, l),
            value_at(PrimitiveType::U8, r),
            tdiv(value_at(PrimitiveType::U8, l), value_at(PrimitiveType::U8, r)),
        ),
        binary_result(typed_op(BinOp::Rem, PrimitiveType::U8).unwrap(), l, r) == division_outcome(
            PrimitiveType::U8,
            value_at(PrimitiveType::U8, l),
            value_at(PrimitiveType::U8, r),
            trem(value_at(PrimitiveType::U8, l), value_at(PrimitiveType::U8, r)),
        ),
{
    lemma_casts(l);
    lemma_casts(r);
    lemma_widen(l as i8, l as i16, l as i32, l as i64, l as u8, l as u16, l as u32);
    lemma_widen(r as i8, r as i16, r as i32, r as i64, r as u8, r as u16, r as u32);
    let p = PrimitiveType::U8;
    let x = value_at(p, l);
    let y = value_at(p, r);
    let m = modulus(type_bits(p));
    if y != 0 {
        lemma_truncated_cases(x, y);
    }
    vstd::arithmetic::div_mod::lemma_div_basics(abs(x));
    let q = tdiv(x, y);
    let rm = trem(x, y);
    lemma_widen(q as i8, q as i16, q as i32, q as i64, q as u8, q as u16, q as u32);
    lemma_widen(rm as i8, rm as i16, rm as i32, rm as i64, rm as u8, rm as u16, rm as u32);
    if y != 0 && !(is_signed(p) && x == -(m / 2) && y == -1) {
        if is_signed(p) {
            lemma_quotient_range(x, y, m / 2);
        } else {
            lemma_quotient_range(x, y, m);
        }
    }
}

#[verifier::rlimit(60)]
proof fn lemma_division_i16(l: u64, r: u64)
    ensures
        binary_result(typed_op(BinOp::Div, PrimitiveType::I16).unwrap(), l, r) == division_outcome(
            PrimitiveType::I16,
            value_at(PrimitiveType::I16, l),
            value_at(PrimitiveType::I16, r),
            tdiv(value_at(PrimitiveType::I16, l), value_at(PrimitiveType::I16, r)),
        ),
        binary_result(typed_op(BinOp::Rem, PrimitiveType::I16).unwrap(), l, r) == division_outcome(
            PrimitiveType::I16,
            value_at(PrimitiveType::I16, l),
            value_at(PrimitiveType::I16, r),
            trem(value_at(PrimitiveType::I16, l), value_at(PrimitiveType::I16, r)),
        ),
{
    lemma_casts(l);
    lemma_casts(r);
    lemma_widen(l as i8, l as i16, l as i32, l as i64, l as u8, l as u16, l as u32);
    lemma_widen(r as i8, r as i16, r as i32, r as i64, r as u8, r as u16, r as u32);
    let p = PrimitiveType::I16;
    let x = value_at(p, l);
    let y = value_at(p, r);
    let m = modulus(type_bits(p));
    if y != 0 {
        lemma_truncated_cases(x, y);
    }
    vstd::arithmetic::div_mod::lemma_div_basics(abs(x));
    let q = tdiv(x, y);
    let rm = trem(x, y);
    lemma_widen(q as i8, q as i16, q as i32, q as i64, q as u8, q as u16, q as u32);
    lemma_widen(rm as i8, rm as i16, rm as i32, rm as i64, rm as u8, rm as u16, rm as u32);
    if y != 0 && !(is_signed(p) && x == -(m / 2) && y == -1) {
        if is_signed(p) {
            lemma_quotient_range(x, y, m / 2);
        } else {
            lemma_quotient_range(x, y, m);
        }
    }
}

#[verifier::rlimit(60)]
proof fn lemma_division_u16(l: u64, r: u64)
    ensures
        binary_result(typed_op(BinOp::Div, PrimitiveType::U16).unwrap(), l, r) == division_outcome(
            PrimitiveType::U16,
            value_at(PrimitiveType::U16, l),
            value_at(PrimitiveType::U16, r),
            tdiv(value_at(PrimitiveType::U16, l), value_at(PrimitiveType::U16, r)),
        ),
        binary_result(typed_op(BinOp::Rem, PrimitiveType::U16).unwrap(), l, r) == division_outcome(
            PrimitiveType::U16,
            value_at(PrimitiveType::U16, l),
            value_at(PrimitiveType::U16, r),
            trem(value_at(PrimitiveType::U16, l), value_at(PrimitiveType::U16, r)),
        ),
{
    lemma_casts(l);
    lemma_casts(r);
    lemma_widen(l as i8, l as i16, l as i32, l as i64, l as u8, l as u16, l as u32);
    lemma_widen(r as i8, r as i16, r as i32, r as i64, r as u8, r as u16, r as u32);
    let p = PrimitiveType::U16;
    let x = value_at(p, l);
    let y = value_at(p, r);
    let m = modulus(type_bits(p));
    if y != 0 {
        lemma_truncated_cases(x, y);
    }
    vstd::arithmetic::div_mod::lemma_div_basics(abs(x));
    let q = tdiv(x, y);
    let rm = trem(x, y);
    lemma_widen(q as i8, q as i16, q as i32, q as i64, q as u8, q as u16, q as u32);
    lemma_widen(rm as i8, rm as i16, rm as i32, rm as i64, rm as u8, rm as u16, rm as u32);
    if y != 0 && !(is_signed(p) && x == -(m / 2) && y == -1) {
        if is_signed(p) {
            lemma_quotient_range(x, y, m / 2);
        } else {
            lemma_quotient_range(x, y, m);
        }
    }
}

#[verifier::rlimit(60)]
proof fn lemma_division_i32(l: u64, r: u64)
    ensures
        binary_result(typed_op(BinOp::Div, PrimitiveType::I32).unwrap(), l, r) == division_outcome(
            PrimitiveType::I32,
            value_at(PrimitiveType::I32, l),
            value_at(PrimitiveType::I32, r),
            tdiv(value_at(PrimitiveType::I32, l), value_at(PrimitiveType::I32, r)),
        ),
        binary_result(typed_op(BinOp::Rem, PrimitiveType::I32).unwrap(), l, r) == division_outcome(
            PrimitiveType::I32,
            value_at(PrimitiveType::I32, l),
            value_at(PrimitiveType::I32, r),
            trem(value_at(PrimitiveType::I32, l), value_at(PrimitiveType::I32, r)),
        ),
{
    lemma_casts(l);
    lemma_casts(r);
    lemma_widen(l as i8, l as i16, l as i32, l as i64, l as u8, l as u16, l as u32);
    lemma_widen(r as i8, r as i16, r as i32, r as i64, r as u8, r as u16, r as u32);
    let p = PrimitiveType::I32;
    let x = value_at(p, l);
    let y = value_at(p, r);
    let m = modulus(type_bits(p));
    if y != 0 {
        lemma_truncated_cases(x, y);
    }
    vstd::arithmetic::div_mod::lemma_div_basics(abs(x));
    let q = tdiv(x, y);
    let rm = trem(x, y);
    lemma_widen(q as i8, q as i16, q as i32, q as i64, q as u8, q as u16, q as u32);
    lemma_widen(rm as i8, rm as i16, rm as i32, rm as i64, rm as u8, rm as u16, rm as u32);
    if y != 0 && !(is_signed(p) && x == -(m / 2) && y == -1) {
        if is_signed(p) {
            lemma_quotient_range(x, y, m / 2);
        } else {
            lemma_quotient_range(x, y, m);
        }
    }
}

#[verifier::rlimit(60)]
proof fn lemma_division_u32(l: u64, r: u64)
    ensures
        binary_result(typed_op(BinOp::Div, PrimitiveType::U32).unwrap(), l, r) == division_outcome(
            PrimitiveType::U32,
            value_at(PrimitiveType::U32, l),
            value_at(PrimitiveType::U32, r),
            tdiv(value_at(PrimitiveType::U32, l), value_at(PrimitiveType::U32, r)),
        ),
        binary_result(typed_op(BinOp::Rem, PrimitiveType::U32).unwrap(), l, r) == division_outcome(
            PrimitiveType::U32,
            value_at(PrimitiveType::U32, l),
            value_at(PrimitiveType::U32, r),
            trem(value_at(PrimitiveType::U32, l), value_at(PrimitiveType::U32, r)),
        ),
{
    lemma_casts(l);
    lemma_casts(r);
    lemma_widen(l as i8, l as i16, l as i32, l as i64, l as u8, l as u16, l as u32);
    lemma_widen(r as i8, r as i16, r as i32, r as i64, r as u8, r as u16, r as u32);
    let p = PrimitiveType::U32;
    let x = value_at(p, l);
    let y = value_at(p, r);
    let m = modulus(type_bits(p));
    if y != 0 {
        lemma_truncated_cases(x, y);
    }
    vstd::arithmetic::div_mod::lemma_div_basics(abs(x));
    let q = tdiv(x, y);
    let rm = trem(x, y);
    lemma_widen(q as i8, q as i16, q as i32, q as i64, q as u8, q as u16, q as u32);
    lemma_widen(rm as i8, rm as i16, rm as i32, rm as i64, rm as u8, rm as u16, rm as u32);
    if y != 0 && !(is_signed(p) && x == -(m / 2) && y == -1) {
        if is_signed(p) {
            lemma_quotient_range(x, y, m / 2);
        } else {
            lemma_quotient_range(x, y, m);
        }
    }
}

#[verifier::rlimit(100)]
proof fn lemma_division_i64(l: u64, r: u64)
    ensures
        binary_result(typed_op(BinOp::Div, PrimitiveType::I64).unwrap(), l, r) == division_outcome(
            PrimitiveType::I64,
            value_at(PrimitiveType::I64, l),
            value_at(PrimitiveType::I64, r),
            tdiv(value_at(PrimitiveType::I64, l), value_at(PrimitiveType::I64, r)),
        ),
        binary_result(typed_op(BinOp::Rem, PrimitiveType::I64).unwrap(), l, r) == division_outcome(
            PrimitiveType::I64,
            value_at(PrimitiveType::I64, l),
            value_at(PrimitiveType::I64, r),
            trem(value_at(PrimitiveType::I64, l), value_at(PrimitiveType::I64, r)),
        ),
{
    lemma_casts(l);
    lemma_casts(r);
    lemma_widen(l as i8, l as i16, l as i32, l as i64, l as u8, l as u16, l as u32);
    lemma_widen(r as i8, r as i16, r as i32, r as i64, r as u8, r as u16, r as u32);
    let p = PrimitiveType::I64;
    let x = value_at(p, l);
    let y = value_at(p, r);
    let m = modulus(type_bits(p));
    if y != 0 {
        lemma_truncated_cases(x, y);
    }
    vstd::arithmetic::div_mod::lemma_div_basics(abs(x));
    let q = tdiv(x, y);
    let rm = trem(x, y);
    lemma_widen(q as i8, q as i16, q as i32, q as i64, q as u8, q as u16, q as u32);
    lemma_widen(rm as i8, rm as i16, rm as i32, rm as i64, rm as u8, rm as u16, rm as u32);
    if y != 0 && !(is_signed(p) && x == -(m / 2) && y == -1) {
        if is_signed(p) {
            lemma_quotient_range(x, y, m / 2);
        } else {
            lemma_quotient_range(x, y, m);
        }
    }
}

#[verifier::rlimit(60)]
proof fn lemma_division_u64(l: u64, r: u64)
    ensures
        binary_result(typed_op(BinOp::Div, PrimitiveType::U64).unwrap(), l, r) == division_outcome(
            PrimitiveType::U64,
            value_at(PrimitiveType::U64, l),
            value_at(PrimitiveType::U64, r),
            tdiv(value_at(PrimitiveType::U64, l), value_at(PrimitiveType::U64, r)),
        ),
        binary_result(typed_op(BinOp::Rem, PrimitiveType::U64).unwrap(), l, r) == division_outcome(
            PrimitiveType::U64,
            value_at(PrimitiveType::U64, l),
            value_at(PrimitiveType::U64, r),
            trem(value_at(PrimitiveType::U64, l), value_at(PrimitiveType::U64, r)),
        ),
{
    lemma_casts(l);
    lemma_casts(r);
    lemma_widen(l as i8, l as i16, l as i32, l as i64, l as u8, l as u16, l as u32);
    lemma_widen(r as i8, r as i16, r as i32, r as i64, r as u8, r as u16, r as u32);
    let p = PrimitiveType::U64;
    let x = value_at(p, l);
    let y = value_at(p, r);
    let m = modulus(type_bits(p));
    if y != 0 {
        lemma_truncated_cases(x, y);
    }
    vstd::arithmetic::div_mod::lemma_div_basics(abs(x));
    let q = tdiv(x, y);
    let rm = trem(x, y);
    lemma_widen(q as i8, q as i16, q as i32, q as i64, q as u8, q as u16, q as u32);
    lemma_widen(rm as i8, rm as i16, rm as i32, rm as i64, rm as u8, rm as u16, rm as u32);
    if y != 0 && !(is_signed(p) && x == -(m / 2) && y == -1) {
        if is_signed(p) {
            lemma_quotient_range(x, y, m / 2);
        } else {
            lemma_quotient_range(x, y, m);
        }
    }
}

/// The division and remainder instructions of each machine integer type
/// work on the values that the registers hold at that type: the quotient
/// rounds toward zero and the remainder takes the dividend's sign; a zero
/// divisor, or the least signed value divided by -1, gives the error that
/// names the two values.
pub proof fn division_instructions_divide_values(p: PrimitiveType, l: u64, r: u64)
    requires
        is_machine_int(p),
    ensures
        typed_op(BinOp::Div, p) matches Some(o) && binary_result(o, l, r) == division_outcome(
            p,
            value_at(p, l),
            value_at(p, r),
            tdiv(value_at(p, l), value_at(p, r)),
        ),
        typed_op(BinOp::Rem, p) matches Some(o) && binary_result(o, l, r) == division_outcome(
            p,
            value_at(p, l),
            value_at(p, r),
            trem(value_at(p, l), value_at(p, r)),
        ),
{
    match p {
        PrimitiveType::I8 => lemma_division_i8(l, r),
        PrimitiveType::U8 => lemma_division_u8(l, r),
        PrimitiveType::I16 => lemma_division_i16(l, r),
        PrimitiveType::U16 => lemma_division_u16(l, r),
        PrimitiveType::I32 => lemma_division_i32(l, r),
        PrimitiveType::U32 => lemma_division_u32(l, r),
        PrimitiveType::I64 => lemma_division_i64(l, r),
        PrimitiveType::U64 => lemma_division_u64(l, r),
        _ => {},
    }
}

/* Wrapping arithmetic */

/// Addition, subtraction and multiplication, at every machine integer
/// type, give the exact result modulo 2^64 in the whole register.
pub proof fn arithmetic_instructions_wrap(p: PrimitiveType, l: u64, r: u64)
    requires
        is_machine_int(p),
    ensures
        typed_op(BinOp::Add, p) matches Some(o) && binary_result(o, l, r) == Some(
            Ok::<u64, RuntimeError>(((l + r) % 0x1_0000_0000_0000_0000int) as u64),
        ),
        typed_op(BinOp::Sub, p) matches Some(o) && binary_result(o, l, r) == Some(
            Ok::<u64, RuntimeError>(((l - r) % 0x1_0000_0000_0000_0000int) as u64),
        ),
        typed_op(BinOp::Mul, p) matches Some(o) && binary_result(o, l, r) == Some(
            Ok::<u64, RuntimeError>(((l * r) % 0x1_0000_0000_0000_0000int) as u64),
        ),
{
    let m = 0x1_0000_0000_0000_0000int;
    if l + r >= m {
        vstd::arithmetic::div_mod::lemma_mod_sub_multiples_vanish(l + r, m);
        vstd::arithmetic::div_mod::lemma_small_mod((l + r - m) as nat, m as nat);
    } else {
        vstd::arithmetic::div_mod::lemma_small_mod((l + r) as nat, m as nat);
    }
    if l - r < 0 {
        vstd::arithmetic::div_mod::lemma_mod_add_multiples_vanish(l - r, m);
        vstd::arithmetic::div_mod::lemma_small_mod((l - r + m) as nat, m as nat);
    } else {
        vstd::arithmetic::div_mod::lemma_small_mod((l - r) as nat, m as nat);
    }
}

/* Comparisons as translated */

/// Whether `a` and `b` stand in the relation that a comparison operator
/// names.
pub open spec fn holds(op: BinOp, a: int, b: int) -> bool {
    match op {
        BinOp::LT => a < b,
        BinOp::LE => a <= b,
        BinOp::GT => a > b,
        BinOp::GE => a >= b,
        BinOp::Equal => a == b,
        BinOp::NotEqual => a != b,
        _ => false,
    }
}

/// The register that an instruction operand names, where register `t`
/// holds `l` and any other holds `r`.
pub open spec fn operand(k: u16, t: u16, l: u64, r: u64) -> u64 {
    if k == t {
        l
    } else {
        r
    }
}

/// The instruction that translation chooses for a comparison of two values
/// of a machine integer type, the left in register `t` and the right in
/// register `u`, writes into `t` 1 where the values stand in the relation
/// that the operator names and 0 where they do not; it reads only `t` and
/// `u`.
pub proof fn comparisons_test_their_operator(op: BinOp, p: PrimitiveType, t: u16, u: u16, l: u64, r: u64)
    requires
        op == BinOp::LT || op == BinOp::LE || op == BinOp::GT || op == BinOp::GE,
        is_machine_int(p),
        t != u,
    ensures
        compare_insn(op, TypeName::Primitive(p), t, u) matches Ok(i) && i.1 == t && (i.2 == t || i.2 == u) && (
        i.3 == t || i.3 == u) && binary_result(i.0, operand(i.2, t, l, r), operand(i.3, t, l, r)) == Some(
            Ok::<u64, RuntimeError>(if holds(op, value_at(p, l), value_at(p, r)) { 1u64 } else { 0u64 }),
        ),
{
    order_instructions_compare_values(p, l, r);
    order_instructions_compare_values(p, r, l);
}

/// Equality tests compare the whole registers; on truth values (0 and 1)
/// the logical connectives give 1 exactly where both, or either, are 1.
pub proof fn equality_and_connectives(op: BinOp, t: u16, u: u16, l: u64, r: u64)
    requires
        t != u,
    ensures
        op == BinOp::Equal || op == BinOp::NotEqual ==> forall|ty: TypeName|
            #![trigger compare_insn(op, ty, t, u)]
            (compare_insn(op, ty, t, u) matches Ok(i) && i.1 == t && i.2 == t && i.3 == u && binary_result(i.0, l, r)
                == Some(Ok::<u64, RuntimeError>(if holds(op, l as int, r as int) { 1u64 } else { 0u64 }))),
        (op == BinOp::LogicalAnd || op == BinOp::LogicalOr) && l <= 1 && r <= 1 ==> (compare_insn(
            op,
            TypeName::Primitive(PrimitiveType::Bool),
            t,
            u,
        ) matches Ok(i) && i.1 == t && i.2 == t && i.3 == u && binary_result(i.0, l, r) == Some(
            Ok::<u64, RuntimeError>(
                if (if op == BinOp::LogicalAnd { l == 1 && r == 1 } else { l == 1 || r == 1 }) { 1u64 } else { 0u64 },
            ),
        )),
{
    assert(l <= 1 && r <= 1 ==> (l & r) == (if l == 1 && r == 1 { 1u64 } else { 0u64 })) by (bit_vector);
    assert(l <= 1 && r <= 1 ==> (l | r) == (if l == 1 || r == 1 { 1u64 } else { 0u64 })) by (bit_vector);
}

/* Arithmetic as translated */

/// What an arithmetic operator gives on two registers that hold values of
/// type `p`: the sum, difference and product modulo 2^64, and the quotient
/// and remainder of the values at that type.
pub open spec fn arithmetic_outcome(op: BinOp, p: PrimitiveType, l: u64, r: u64) -> Option<Result<u64, RuntimeError>> {
    let m = 0x1_0000_0000_0000_0000int;
    match op {
        BinOp::Add => Some(Ok(((l + r) % m) as u64)),
        BinOp::Sub => Some(Ok(((l - r) % m) as u64)),
        BinOp::Mul => Some(Ok(((l * r) % m) as u64)),
        BinOp::Div => division_outcome(p, value_at(p, l), value_at(p, r), tdiv(value_at(p, l), value_at(p, r))),
        BinOp::Rem => division_outcome(p, value_at(p, l), value_at(p, r), trem(value_at(p, l), value_at(p, r))),
        _ => None,
    }
}

/// An arithmetic expression that translates ends its code with one
/// instruction that reads the left value from register `t` and the right
/// from `t + 1` and writes `t`; on any two register values it computes the
/// operator at the type of the expression (an open integer literal type
/// taken at its default).
pub proof fn arithmetic_translation<'src>(
    g: GEnvV,
    l: LEnvV,
    c: Seq<u64>,
    t: u16,
    lhs: Box<Spanned<Expression<'src>>>,
    rhs: Box<Spanned<Expression<'src>>>,
    op: BinOp,
    span: Span,
    exp: Option<TypeName>,
)
    requires
        !is_logical(op),
    ensures
        expr_code(g, l, c, t, Spanned(Expression::BinOp { lhs, rhs, op }, span), exp) matches Outcome::Done(
            (code, ty, _),
        ) ==> (ty matches TypeName::Primitive(p) && t < 0xffff && code.len() > 0 && is_machine_int(fallback(p))
            && code.last().1 == t && code.last().2 == t && code.last().3 == t + 1 && forall|lv: u64, rv: u64|
            #![trigger binary_result(code.last().0, lv, rv)]
            binary_result(code.last().0, lv, rv) == arithmetic_outcome(op, fallback(p), lv, rv)),
{
    reveal(expr_code);
    let se = Spanned(Expression::BinOp { lhs, rhs, op }, span);
    if let Outcome::Done((code, ty, _)) = expr_code(g, l, c, t, se, exp) {
        if let TypeName::Primitive(p) = ty {
            let q = fallback(p);
            typed_ops_exist(op, q);
            assert forall|lv: u64, rv: u64|
                #![trigger binary_result(code.last().0, lv, rv)]
                binary_result(code.last().0, lv, rv) == arithmetic_outcome(op, q, lv, rv) by {
                arithmetic_instructions_wrap(q, lv, rv);
                division_instructions_divide_values(q, lv, rv);
            }
        }
    }
}

/* Whitespace */

/// The characters that the lexer skips are those of
/// `char::is_ascii_whitespace`: space, horizontal tab, line feed, form
/// feed and carriage return.
pub open spec fn ascii_whitespace_code(c: char) -> bool {
    c as u32 == 0x20 || c as u32 == 0x09 || c as u32 == 0x0A || c as u32 == 0x0C || c as u32 == 0x0D
}

/// The lexer's whitespace is exactly ASCII whitespace.
pub proof fn lexer_whitespace_is_ascii_whitespace(c: char)
    ensures
        is_ascii_ws(c) <==> ascii_whitespace_code(c),
{
}

/// An ASCII whitespace character at the position where lexing starts
/// changes nothing: lexing from it gives what lexing from the next
/// character gives, tokens, spans and error alike.
pub proof fn whitespace_is_skipped(s: Seq<char>, p: int)
    requires
        0 <= p < s.len(),
        ascii_whitespace_code(s[p]),
    ensures
        lex_from(s, p) == lex_from(s, p + 1),
{
    reveal(scan);
    lexer_whitespace_is_ascii_whitespace(s[p]);
    assert(skip_ws(s, p) == skip_ws(s, p + 1));
    assert(scan(s, p) == scan(s, p + 1));
}

/* Steps of the machine */

/// The innermost call after a step moved only its own instruction and one
/// register: the calls below it are untouched, it runs the same function
/// at `pc`, and its registers are the old ones with register `a` set to
/// `v`.
pub open spec fn moved_to(st: Seq<FrameV>, st2: Seq<FrameV>, pc: int, a: int, v: u64) -> bool {
    &&& st2.len() == st.len()
    &&& st2.drop_last() == st.drop_last()
    &&& st2.last().0 == st.last().0
    &&& st2.last().1 == pc
    &&& st2.last().3 == st.last().3
    &&& st2.last().2 == st.last().2.update(a, v)
}

/// The innermost call after a step moved only its instruction, to `pc`.
pub open spec fn jumped_to(st: Seq<FrameV>, st2: Seq<FrameV>, pc: int) -> bool {
    &&& st2.len() == st.len()
    &&& st2.drop_last() == st.drop_last()
    &&& st2.last().0 == st.last().0
    &&& st2.last().1 == pc
    &&& st2.last().2 == st.last().2
    &&& st2.last().3 == st.last().3
}

/// The 32-bit signed jump distance whose high and low halves are `hi` and
/// `lo`.
pub open spec fn distance(hi: u16, lo: u16) -> int {
    value_at(PrimitiveType::I32, (hi as int * 0x1_0000 + lo as int) as u64)
}

/// What a step does with the instruction at the innermost call's `pc`,
/// where it goes on: a constant or a register is copied into register
/// `a`; negation leaves the number that adds to the operand to 0 modulo
/// 2^64, and inversion the one that adds to it to 2^64 - 1; a jump moves to
/// the instruction after it plus its signed distance, the conditional ones
/// only where register `a` is zero (`JumpZ`) or not (`JumpNZ`), and on to
/// the next instruction otherwise; an operation on two registers writes its
/// value into register `a`. (A function's code, as any vector, is at most
/// `usize::MAX` long.)
pub proof fn step_effects(fs: Seq<FunctionV>, st: Seq<FrameV>)
    requires
        st.len() > 0,
        st.last().0 < fs.len(),
        st.last().1 < fs[st.last().0 as int].code.len(),
        fs[st.last().0 as int].code.len() <= usize::MAX,
    ensures
        ({
            let f = st.last();
            let func = fs[f.0 as int];
            let i = func.code[f.1 as int];
            let (a, b, c) = (i.1 as int, i.2 as int, i.3 as int);
            let regs = f.2;
            let next = f.1 + 1;
            step_spec(fs, st) matches StepV::Next(st2) ==> match i.0 {
                OpCode::Const => moved_to(st, st2, next, a, func.constants[b]),
                OpCode::Mov => moved_to(st, st2, next, a, regs[b]),
                OpCode::NegI8 | OpCode::NegI16 | OpCode::NegI32 | OpCode::NegI64 => exists|v: u64|
                    moved_to(st, st2, next, a, v) && (v + regs[b]) % 0x1_0000_0000_0000_0000int == 0,
                OpCode::Inv => exists|v: u64| moved_to(st, st2, next, a, v) && v + regs[b] == 0xffff_ffff_ffff_ffffint,
                OpCode::Jump => jumped_to(st, st2, next + distance(i.2, i.3)),
                OpCode::JumpZ => jumped_to(st, st2, if regs[a] == 0 { next + distance(i.2, i.3) } else { next }),
                OpCode::JumpNZ => jumped_to(st, st2, if regs[a] != 0 { next + distance(i.2, i.3) } else { next }),
                OpCode::Nop => jumped_to(st, st2, next),
                OpCode::Ret | OpCode::FnCall => true,
                op => binary_result(op, regs[b], regs[c]) matches Some(Ok(v)) && moved_to(st, st2, next, a, v),
            }
        }),
{
    assert forall|g: FrameV| #[trigger] set_top(st, g).drop_last() == st.drop_last() && set_top(st, g).last() == g
        && set_top(st, g).len() == st.len() by {
        assert(set_top(st, g).drop_last() =~= st.drop_last());
    }
    let f = st.last();
    let func = fs[f.0 as int];
    let i = func.code[f.1 as int];
    let hi = i.2;
    let lo = i.3;
    let w = (hi as int * 0x1_0000 + lo as int) as u64;
    lemma_casts(w);
    vstd::arithmetic::div_mod::lemma_small_mod(w as nat, 0x1_0000_0000);
    let x = f.2[i.2 as int];
    if (i.0 == OpCode::NegI8 || i.0 == OpCode::NegI16 || i.0 == OpCode::NegI32 || i.0 == OpCode::NegI64) && x != 0 {
        assert(x != 0 ==> (!x) as int + 1 + x == 0x1_0000_0000_0000_0000int) by (bit_vector);
        vstd::arithmetic::div_mod::lemma_mod_self_0(0x1_0000_0000_0000_0000int);
        let v = ((!x) + 1) as u64;
        if let StepV::Next(st2) = step_spec(fs, st) {
            assert(moved_to(st, st2, f.1 + 1, i.1 as int, v));
        }
    }
    if i.0 == OpCode::Inv {
        assert((!x) as int + x == 0xffff_ffff_ffff_ffffint) by (bit_vector);
        if let StepV::Next(st2) = step_spec(fs, st) {
            assert(moved_to(st, st2, f.1 + 1, i.1 as int, !x));
        }
    }
}

} // verus!
