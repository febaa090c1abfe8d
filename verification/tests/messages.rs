use chibi_script::runner::RuntimeError;
use chibi_script::syntax::lexer::{LexError, Lexer, PrimitiveType, Span, StringLexer};
use chibi_script::syntax::parser::{parse, ParseError, TypeName};
use chibi_script::translate::{translate, ErrorKind, SyntaxError, TranslateError};

fn compile_err(src: &str) -> TranslateError {
    let mut lexer = StringLexer::new(src);
    let mut tokens = lexer.lex().unwrap();
    let ast = parse(&mut tokens).unwrap();
    translate(ast).unwrap_err()
}

fn kind_message(kind: ErrorKind) -> String {
    TranslateError(kind, Span(0, 0)).message()
}

#[test]
fn translate_error_messages() {
    assert_eq!(compile_err("fn main() { x }").message(), "undefined variable \"x\"");
    assert_eq!(compile_err("fn main() { hoge(1); }").message(), "undefined function \"hoge\"");
    assert_eq!(
        compile_err("fn main() -> i32 { unit }").message(),
        "mismatched types; expected Primitive(I32), found Unit"
    );
    assert_eq!(
        compile_err("fn f(a: i32) {} fn main() { f(1, 2) }").message(),
        "invalid argument count; expected 1, found 2"
    );
    assert_eq!(compile_err("fn main() { 1 = 2 }").message(), "invalid assignment");
    assert_eq!(compile_err("fn main() { let x: u8 = -1; }").message(), "cannot negate type \"U8\"");
    assert_eq!(
        compile_err("fn main() -> bool { true + false }").message(),
        "operation is undefined for Primitive(Bool)"
    );
    assert_eq!(kind_message(ErrorKind::NothingReturned), "nothing returned");
    assert_eq!(
        kind_message(ErrorKind::InvalidArgumentType(TypeName::Primitive(PrimitiveType::U32), TypeName::Never)),
        "invalid argument type; expected Primitive(U32), found Never"
    );
    assert_eq!(
        kind_message(ErrorKind::SyntaxError(SyntaxError::InvalidAssignment)),
        "invalid assignment"
    );
}

#[test]
fn type_names_are_written_as_debug_writes_them() {
    let all = [
        PrimitiveType::I8,
        PrimitiveType::U8,
        PrimitiveType::I16,
        PrimitiveType::U16,
        PrimitiveType::I32,
        PrimitiveType::U32,
        PrimitiveType::I64,
        PrimitiveType::U64,
        PrimitiveType::Integer,
        PrimitiveType::Bool,
    ];
    for p in all {
        let t = TypeName::Primitive(p);
        assert_eq!(
            kind_message(ErrorKind::OperationUndefined(t)),
            format!("operation is undefined for {:?}", t)
        );
        assert_eq!(kind_message(ErrorKind::CannotNegate(p)), format!("cannot negate type \"{:?}\"", p));
    }
    for t in [TypeName::Unit, TypeName::Never] {
        assert_eq!(
            kind_message(ErrorKind::MismatchedTypes(t, t)),
            format!("mismatched types; expected {:?}, found {:?}", t, t)
        );
    }
}

#[test]
fn counts_are_written_in_decimal() {
    for (a, b) in [(0usize, 10usize), (9, 100), (12345, 67890), (usize::MAX, 1)] {
        assert_eq!(
            kind_message(ErrorKind::InvalidArgumentCount(a, b)),
            format!("invalid argument count; expected {}, found {}", a, b)
        );
    }
}

#[test]
fn parse_error_messages() {
    assert_eq!(ParseError::UnexpectedToken(Span(3, 10)).message(), "unexpected token at : 3-10");
    assert_eq!(ParseError::UnexpectedEOF.message(), "unexpected end of file");
}

#[test]
fn lex_error_messages() {
    assert_eq!(LexError::UnsupportedToken.message(), "Unsupported token");
    assert_eq!(LexError::UnknownKeyword.message(), "Unknown keyword");
    assert_eq!(LexError::ParseNumberError.message(), "Failed to parse number");
}

#[test]
fn runtime_error_messages() {
    assert_eq!(RuntimeError::NoEntryPoint.message(), "no entry point");
    assert_eq!(RuntimeError::PcExceeded.message(), "PC exceeded");
    assert_eq!(RuntimeError::WriteBufferFailed.message(), "failed writing buffer");
    assert_eq!(RuntimeError::DivisionError(-7, 0).message(), "divide error: -7, 0");
    assert_eq!(
        RuntimeError::DivisionError(i64::MIN, -1).message(),
        "divide error: -9223372036854775808, -1"
    );
    assert_eq!(RuntimeError::OutOfCharBounds(0xd800).message(), "out out char bounds: 0x    d800");
    for n in [0u32, 0xd800, 0x110000, 0xdeadbeef, u32::MAX, 0x1234567] {
        assert_eq!(
            RuntimeError::OutOfCharBounds(n).message(),
            format!("out out char bounds: 0x{:8x}", n)
        );
    }
    for (a, b) in [(i64::MAX, i64::MIN), (0, 0), (-1, 10)] {
        assert_eq!(
            RuntimeError::DivisionError(a, b).message(),
            format!("divide error: {}, {}", a, b)
        );
    }
}
