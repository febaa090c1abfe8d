use chibi_script::runner::{Machine, RuntimeError, Step};
use chibi_script::syntax::lexer::{Lexer, StringLexer};
use chibi_script::syntax::parser::{parse, TypeName};
use chibi_script::translate::{translate, FuncId, Function, Mochi, Signature};

fn compile(src: &str) -> Mochi {
    let mut lexer = StringLexer::new(src);
    let mut tokens = lexer.lex().unwrap();
    let ast = parse(&mut tokens).unwrap();
    translate(ast).unwrap()
}

/// Drives the machine until the program ends, collecting what it writes.
fn run(mochi: &Mochi) -> (Result<u64, RuntimeError>, String) {
    let mut out = String::new();
    let mut machine = match Machine::start(mochi) {
        Ok(m) => m,
        Err(e) => return (Err(e), out),
    };
    loop {
        assert!(machine.can_step(mochi));
        match machine.step(mochi) {
            Step::Continue => {}
            Step::Write(c) => out.push(c),
            Step::Finished(v) => return (Ok(v), out),
            Step::Failed(e) => return (Err(e), out),
        }
    }
}

#[test]
fn runs_arithmetic() {
    let mochi = compile("fn main() -> i32 { 1 + 2 * 3 }");
    assert_eq!(run(&mochi).0, Ok(7));
}

#[test]
fn runs_subtraction_to_negative() {
    let mochi = compile("fn main() -> i32 { 2 - 5 }");
    let v = run(&mochi).0.unwrap();
    assert_eq!(v as i64, -3);
}

#[test]
fn runs_negative_literal() {
    let mochi = compile("fn main() -> i32 { -5 }");
    let v = run(&mochi).0.unwrap();
    assert_eq!(v as i64, -5);
}

#[test]
fn runs_calls() {
    let mochi = compile(
        "fn add(a: i32, b: i32) -> i32 { a + b } fn main() -> i32 { add(40, 2) }",
    );
    assert_eq!(run(&mochi).0, Ok(42));
}

#[test]
fn runs_nested_calls() {
    let mochi = compile(
        "fn twice(a: u32) -> u32 { a * 2 } fn main() -> u32 { twice(twice(5)) + 1 }",
    );
    assert_eq!(run(&mochi).0, Ok(21));
}

#[test]
fn runs_if_else() {
    let mochi = compile("fn main() -> i32 { if 1 > 0 { 10 } else { 20 } }");
    assert_eq!(run(&mochi).0, Ok(10));
    let mochi = compile("fn main() -> i32 { if 1 < 0 { 10 } else { 20 } }");
    assert_eq!(run(&mochi).0, Ok(20));
}

#[test]
fn runs_else_if_chain() {
    let src = "fn main() -> i32 { let x: i32 = 2; if x == 1 { 10 } else if x == 2 { 20 } else { 30 } }";
    assert_eq!(run(&compile(src)).0, Ok(20));
}

#[test]
fn runs_logical_operators() {
    let src = "fn main() -> i32 { if 1 < 2 && 3 < 2 || 4 == 4 { 1 } else { 0 } }";
    assert_eq!(run(&compile(src)).0, Ok(1));
}

#[test]
fn runs_assignment() {
    let src = "fn main() -> i32 { let x: i32 = 1; x = x + 41; x }";
    assert_eq!(run(&compile(src)).0, Ok(42));
}

#[test]
fn writes_characters() {
    let mochi = compile("fn main() { putc(72); putc(105); }");
    let (r, out) = run(&mochi);
    assert!(r.is_ok());
    assert_eq!(out, "Hi");
}

#[test]
fn division_by_zero_fails() {
    let mochi = compile("fn main() -> i32 { 1 / 0 }");
    assert_eq!(run(&mochi).0, Err(RuntimeError::DivisionError(1, 0)));
}

#[test]
fn remainder() {
    let mochi = compile("fn main() -> u32 { 17 % 5 }");
    assert_eq!(run(&mochi).0, Ok(2));
}

#[test]
fn signed_division_truncates() {
    let mochi = compile("fn main() -> i32 { -7 / 2 }");
    assert_eq!(run(&mochi).0.unwrap() as i32, -3);
}

#[test]
fn surrogate_code_fails() {
    let mochi = compile("fn main() { putc(55296); }");
    let (r, out) = run(&mochi);
    assert!(matches!(r, Err(RuntimeError::OutOfCharBounds(_))));
    assert_eq!(out, "");
}

#[test]
fn no_entry_point() {
    let mochi = Mochi::new(Vec::new());
    assert_eq!(run(&mochi).0, Err(RuntimeError::NoEntryPoint));
    assert!(Machine::start(&mochi).is_err());
}

#[test]
fn empty_code_exceeds_pc() {
    let sig = Signature::new(&Vec::new(), &TypeName::Unit);
    let main = Function::new("main", FuncId(1), &sig, Vec::new(), Vec::new());
    let mochi = Mochi::new(vec![main]);
    assert_eq!(run(&mochi).0, Err(RuntimeError::PcExceeded));
}

#[test]
fn failed_step_keeps_state() {
    let sig = Signature::new(&Vec::new(), &TypeName::Unit);
    let main = Function::new("main", FuncId(1), &sig, Vec::new(), Vec::new());
    let mochi = Mochi::new(vec![main]);
    let mut machine = Machine::start(&mochi).unwrap();
    assert_eq!(machine.step(&mochi), Step::Failed(RuntimeError::PcExceeded));
    assert_eq!(machine.stack.len(), 1);
    assert_eq!(machine.stack[0].pc, 0);
    assert_eq!(machine.step(&mochi), Step::Failed(RuntimeError::PcExceeded));
}

#[test]
fn frame_resizes_registers() {
    let mochi = compile("fn add(a: i32, b: i32) -> i32 { a + b } fn main() -> i32 { add(1, 2) }");
    let add = mochi.functions.iter().position(|f| f.name == "add").unwrap();
    let n = mochi.functions[add].register_count as usize;
    let frame = chibi_script::runner::StackFrame::new(&mochi, add, vec![7, 8], 3);
    assert_eq!(frame.registers.len(), n);
    assert_eq!(frame.registers[0], 7);
    assert_eq!(frame.registers[1], 8);
    assert!(frame.registers[2..].iter().all(|r| *r == 0));
    assert_eq!(frame.pc, 0);
    assert_eq!(frame.dst, 3);
}
