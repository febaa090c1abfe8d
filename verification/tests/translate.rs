use chibi_script::instruction::{Instruction, OpCode};
use chibi_script::syntax::lexer::{Lexer, PrimitiveType::Bool, PrimitiveType::I32, PrimitiveType::Integer, PrimitiveType::U8, StringLexer};
use chibi_script::syntax::parser::{parse, TypeName::Primitive, TypeName::Unit};
use chibi_script::translate::{translate, ErrorKind, Mochi, TranslateError};

fn compile(src: &str) -> Mochi {
    let mut lexer = StringLexer::new(src);
    let mut tokens = lexer.lex().unwrap();
    let ast = parse(&mut tokens).unwrap();
    translate(ast).unwrap()
}

fn compile_err(src: &str) -> TranslateError {
    let mut lexer = StringLexer::new(src);
    let mut tokens = lexer.lex().unwrap();
    let ast = parse(&mut tokens).unwrap();
    translate(ast).unwrap_err()
}

#[test]
fn unit_fn() {
    let srcs = ["fn main() {}", "fn main() { unit }"];
    for src in srcs {
        let mochi = compile(src);
        let main = mochi.functions.iter().find(|f| f.name == "main").unwrap();
        assert_eq!(main.signature.ret_ty(), &Unit)
    }
}

#[test]
fn missing_return_value() {
    let srcs = [
        r#"
            fn main() -> i32 {
                let x: i32 = 42;
            }"#,
        r#"
            fn main() -> i32 {
                unit
            }"#,
    ];
    for src in srcs {
        let err = compile_err(src);
        assert_eq!(err.kind(), &ErrorKind::MismatchedTypes(Primitive(I32), Unit));
    }
}

#[test]
fn if_same_types() {
    let srcs = [
        r#"
            fn main() -> i32 {
                if 1 > 0 {
                    -42
                }
                else {
                    53
                }
            }"#,
        r#"
            fn main() -> u32 {
                if 1 > 0 {
                    42
                }
                else {
                    53
                }
            }"#,
    ];
    for src in srcs {
        compile(src);
    }
}

#[test]
fn if_mismatched_types() {
    let srcs = [
        r#"
            fn main() -> i32 {
                if 1 > 0 {
                    -42
                }
                else {
                    unit
                }
            }"#,
        r#"
            fn main() -> u32 {
                if 1 > 0 {
                    42
                }
                else {
                    let x: u64 = 53;
                    x
                }
            }"#,
    ];
    for src in srcs {
        let err = compile_err(src);
        assert!(matches!(err.kind(), ErrorKind::MismatchedTypes(_, _)));
    }
}

#[test]
fn invalid_argument_type() {
    let srcs = [
        r#"
            fn f(x: u32) {
                unit
            }
            fn main() {
                f(false)
            }"#,
        r#"
            fn f(cond: bool) {
                unit
            }
            fn main() {
                f(42)
            }"#,
    ];
    for src in srcs {
        let err = compile_err(src);
        assert!(matches!(err.kind(), ErrorKind::InvalidArgumentType(_, _)));
    }
}

#[test]
fn undefined_variable() {
    let srcs = [r#"
            fn main() {
                x
            }"#];
    for src in srcs {
        let err = compile_err(src);
        assert!(matches!(err.kind(), ErrorKind::UndefinedVariable(_)));
    }
}

#[test]
fn undefined_function() {
    let srcs = [r#"
            fn main() {
                hoge(x);
            }"#];
    for src in srcs {
        let err = compile_err(src);
        assert!(matches!(err.kind(), ErrorKind::UndefinedFunction(_)));
    }
}

#[test]
fn host_function_comes_first() {
    let mochi = compile("fn main() {}");
    assert_eq!(mochi.entry_point, "main");
    assert_eq!(mochi.functions.len(), 2);
    assert_eq!(mochi.functions[0].name, "putc");
    assert_eq!(mochi.functions[0].func_id.0, 0);
    assert_eq!(mochi.functions[0].register_count, 1);
    assert_eq!(mochi.functions[1].func_id.0, 1);
}

#[test]
fn code_of_addition() {
    let mochi = compile("fn main() -> i32 { 1 + 2 }");
    let main = &mochi.functions[1];
    assert_eq!(main.constants, vec![1, 2]);
    assert_eq!(
        main.code,
        vec![
            Instruction(OpCode::Const, 0, 0, 0),
            Instruction(OpCode::Const, 1, 1, 0),
            Instruction(OpCode::AddI32, 0, 0, 1),
            Instruction(OpCode::Mov, 0, 0, 0),
            Instruction(OpCode::Ret, 0, 0, 0),
        ]
    );
    assert_eq!(main.register_count, 2);
}

#[test]
fn constants_are_shared() {
    let mochi = compile("fn main() -> u8 { let a: u8 = 7; a + 7 }");
    assert_eq!(mochi.functions[1].constants, vec![7]);
}

#[test]
fn code_of_if_else() {
    let mochi = compile("fn main() -> i32 { if true { 1 } else { 2 } }");
    let main = &mochi.functions[1];
    assert_eq!(
        main.code,
        vec![
            Instruction(OpCode::Const, 0, 0, 0),
            Instruction(OpCode::JumpZ, 0, 0, 3),
            Instruction(OpCode::Const, 0, 0, 0),
            Instruction(OpCode::Mov, 0, 0, 0),
            Instruction(OpCode::Jump, 0, 0, 2),
            Instruction(OpCode::Const, 0, 1, 0),
            Instruction(OpCode::Mov, 0, 0, 0),
            Instruction(OpCode::Mov, 0, 0, 0),
            Instruction(OpCode::Ret, 0, 0, 0),
        ]
    );
}

#[test]
fn comparison_swaps_operands_for_greater() {
    let mochi = compile("fn main() -> bool { 1 > 2 }");
    let main = &mochi.functions[1];
    assert_eq!(main.code[2], Instruction(OpCode::LTI32, 0, 1, 0));
}

#[test]
fn other_errors() {
    assert_eq!(
        compile_err("fn main() { 1 = 2 }").kind(),
        &ErrorKind::SyntaxError(chibi_script::translate::SyntaxError::InvalidAssignment)
    );
    assert_eq!(
        compile_err("fn f(a: i32) {} fn main() { f(1, 2) }").kind(),
        &ErrorKind::InvalidArgumentCount(1, 2)
    );
    assert_eq!(compile_err("fn main() { let x: u8 = -1; }").kind(), &ErrorKind::CannotNegate(U8));
    assert_eq!(
        compile_err("fn main() -> bool { true + false }").kind(),
        &ErrorKind::OperationUndefined(Primitive(Bool))
    );
    assert_eq!(
        compile_err("fn main() -> i32 { !1 }").kind(),
        &ErrorKind::OperationUndefined(Primitive(I32))
    );
    assert_eq!(
        compile_err("fn main() { if 1 { } }").kind(),
        &ErrorKind::MismatchedTypes(Primitive(Bool), Primitive(Integer))
    );
    let err = compile_err("fn main() {\n  y\n}");
    assert_eq!(err.kind(), &ErrorKind::UndefinedVariable("y".to_string()));
    assert_eq!(err.span(), chibi_script::syntax::lexer::Span(14, 15));
}


#[test]
fn checked_translation_reports_overflow() {
    use_checked("fn main() -> i64 { -9223372036854775808 }", true);
    use_checked("fn main() -> i64 { -9223372036854775807 }", false);
    use_checked("fn main() -> i64 { x }", false);
}

fn use_checked(src: &str, overflows: bool) {
    let mut lexer = StringLexer::new(src);
    let mut tokens = lexer.lex().unwrap();
    let ast = parse(&mut tokens).unwrap();
    let r = chibi_script::translate::translate_checked(ast);
    assert_eq!(r.is_none(), overflows);
}
