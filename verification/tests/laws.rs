use chibi_script::lexer as legacy;
use chibi_script::lexer::Lexer as LegacyLexer;
use chibi_script::runner::{Machine, Step};
use chibi_script::syntax::lexer::{Keyword, Lexer, PrimitiveType, StringLexer, TokenKind};
use chibi_script::instruction::{BinOpExt, OpCode};
use chibi_script::translate::ErrorKind;
use chibi_script::syntax::parser::{parse, BinOp, TypeName};
use chibi_script::translate::compiler::expr::add_const;
use chibi_script::translate::typing::TypeNameExt;
use chibi_script::translate::{translate, GlobalEnv, LocalEnv, Mochi, Signature};

const ALL_TYPES: [PrimitiveType; 10] = [
    PrimitiveType::I8,
    PrimitiveType::U8,
    PrimitiveType::I16,
    PrimitiveType::U16,
    PrimitiveType::I32,
    PrimitiveType::U32,
    PrimitiveType::I64,
    PrimitiveType::U64,
    PrimitiveType::Integer,
    PrimitiveType::Bool,
];

fn compile(src: &str) -> Mochi {
    let mut lexer = StringLexer::new(src);
    let mut tokens = lexer.lex().unwrap();
    let ast = parse(&mut tokens).unwrap();
    translate(ast).unwrap()
}

#[test]
fn spellings_read_back() {
    let words = [
        ("fn", Keyword::Fn),
        ("let", Keyword::Let),
        ("if", Keyword::If),
        ("else", Keyword::Else),
        ("true", Keyword::True),
        ("false", Keyword::False),
        ("unit", Keyword::Unit),
        ("never", Keyword::Never),
    ];
    for (w, k) in words {
        assert_eq!(Keyword::from_word(w).ok(), Some(k));
    }
    assert!(Keyword::from_word("fun").is_err());
    let types = [
        ("i8", PrimitiveType::I8),
        ("u8", PrimitiveType::U8),
        ("i16", PrimitiveType::I16),
        ("u16", PrimitiveType::U16),
        ("i32", PrimitiveType::I32),
        ("u32", PrimitiveType::U32),
        ("i64", PrimitiveType::I64),
        ("u64", PrimitiveType::U64),
        ("bool", PrimitiveType::Bool),
    ];
    for (w, t) in types {
        assert_eq!(PrimitiveType::from_word(w).ok(), Some(t));
    }
    assert!(PrimitiveType::from_word("integer").is_err());
}

#[test]
fn legacy_spellings_read_back() {
    assert_eq!(legacy::Keyword::from_word("fn").ok(), Some(legacy::Keyword::Fn));
    assert_eq!(legacy::Keyword::from_word("let").ok(), Some(legacy::Keyword::Let));
    assert_eq!(legacy::PrimitiveType::from_word("u8").ok(), Some(legacy::PrimitiveType::I8));
    assert_eq!(legacy::PrimitiveType::from_word("i8").ok(), Some(legacy::PrimitiveType::U8));
    assert_eq!(legacy::PrimitiveType::from_word("u64").ok(), Some(legacy::PrimitiveType::U64));
}

#[test]
fn primitive_casts_are_reflexive_and_symmetric() {
    for a in ALL_TYPES {
        assert_eq!(a.try_cast(&a), Some(a));
        for b in ALL_TYPES {
            assert_eq!(a.try_cast(&b), b.try_cast(&a));
        }
    }
    assert_eq!(PrimitiveType::Integer.try_cast(&PrimitiveType::U16), Some(PrimitiveType::U16));
    assert_eq!(PrimitiveType::Integer.try_cast(&PrimitiveType::Bool), None);
    assert_eq!(PrimitiveType::I8.try_cast(&PrimitiveType::U8), None);
}

#[test]
fn type_casts_are_reflexive_and_never_fits() {
    let mut all: Vec<TypeName> = ALL_TYPES.iter().map(|p| TypeName::Primitive(*p)).collect();
    all.push(TypeName::Unit);
    all.push(TypeName::Never);
    for t in all {
        assert_eq!(t.try_cast(&t), Ok(t));
        assert_eq!(t.try_cast(&TypeName::Never), Ok(t));
    }
    assert!(TypeName::Never.try_cast(&TypeName::Unit).is_err());
}

#[test]
fn constants_are_added_once() {
    let mut c = vec![4, 9];
    let i = add_const(&mut c, 7);
    assert_eq!(i.0, 2);
    assert_eq!(c, vec![4, 9, 7]);
    let j = add_const(&mut c, 7);
    assert_eq!(j, i);
    assert_eq!(c, vec![4, 9, 7]);
    assert_eq!(add_const(&mut c, 9).0, 1);
    assert_eq!(c, vec![4, 9, 7]);
}

#[test]
fn bound_variables_are_found() {
    let mut env = LocalEnv::new();
    let i32_ty = TypeName::Primitive(PrimitiveType::I32);
    let bool_ty = TypeName::Primitive(PrimitiveType::Bool);
    let a = env.add_variable("a", &i32_ty);
    let b = env.add_variable("b", &bool_ty);
    assert_eq!(a.0, 0);
    assert_eq!(b.0, 1);
    assert_eq!(env.get_variable("a"), Some((&i32_ty, a)));
    let a2 = env.add_variable("a", &bool_ty);
    assert_eq!(a2.0, 2);
    assert_eq!(env.get_variable("a"), Some((&bool_ty, a2)));
    assert_eq!(env.get_variable("b"), Some((&bool_ty, b)));
    assert_eq!(env.get_variable("c"), None);
    assert_eq!(env.available_reg().0, 0);
}

#[test]
fn registered_functions_are_found() {
    let mut env = GlobalEnv::new();
    let unit = Signature::new(&Vec::new(), &TypeName::Unit);
    let int = Signature::new(&vec![TypeName::Primitive(PrimitiveType::I32)], &TypeName::Unit);
    assert_eq!(env.get_func("putc").unwrap().1 .0, 0);
    let f = env.add_func("f", &unit);
    assert_eq!(f.0, 1);
    assert_eq!(env.get_func("f"), Some((&unit, f)));
    let g = env.add_func("f", &int);
    assert_eq!(g.0, 2);
    assert_eq!(env.get_func("f"), Some((&unit, f)));
    assert!(env.get_func("g").is_none());
}

#[test]
fn tokens_come_in_source_order() {
    let src = "fn add(a: i32, b: i32) -> i32 {\n  let sum = a + b; sum == 0 || sum >= 10 }";
    let mut lexer = StringLexer::new(src);
    let tokens: Vec<_> = lexer.lex().unwrap().into_iter().collect();
    let n = tokens.len();
    assert!(n >= 1);
    assert!(matches!(tokens[n - 1].kind(), TokenKind::EOF));
    for i in 0..n - 1 {
        assert!(!matches!(tokens[i].kind(), TokenKind::EOF));
        let s = tokens[i].span();
        assert!(s.0 < s.1 && s.1 <= src.len());
        if i + 1 < n - 1 {
            assert!(s.1 <= tokens[i + 1].span().0);
        }
    }
}

#[test]
fn legacy_tokens_end_once() {
    let mut lexer = legacy::StringLexer::new("fn main(x: u8) -> i32 { -42 }");
    let tokens = lexer.lex().unwrap();
    assert_eq!(tokens.last(), Some(&legacy::Token::EOF));
    assert_eq!(tokens.iter().filter(|t| **t == legacy::Token::EOF).count(), 1);
}

#[test]
fn translated_code_names_existing_registers() {
    let srcs = [
        "fn main() -> i32 { let a: i32 = 1; let b: i32 = a * 2; if a < b && b != 3 { a + b } else { a - b } }",
        "fn f(x: u8, y: u8) -> u8 { x % y } fn main() -> u8 { f(f(9, 4), 2) + f(7, 3) }",
        "fn main() { putc(72); putc(10); }",
    ];
    for src in srcs {
        let mochi = compile(src);
        for f in &mochi.functions {
            for insn in &f.code {
                if let Some(r) = insn.max_reg_index() {
                    assert!(r < f.register_count);
                }
            }
        }
    }
}

#[test]
fn translated_ids_are_positions() {
    let mochi = compile("fn a() {} fn b() -> i32 { 2 } fn main() { a(); }");
    for (i, f) in mochi.functions.iter().enumerate() {
        assert_eq!(f.func_id.0 as usize, i);
    }
}

#[test]
fn steps_keep_frames_fitting() {
    let mochi = compile("fn f(x: i32) -> i32 { x + 1 } fn main() -> i32 { f(f(1)) * 3 }");
    let mut machine = Machine::start(&mochi).unwrap();
    assert_eq!(machine.stack.len(), 1);
    loop {
        for frame in &machine.stack {
            assert_eq!(frame.registers.len(), mochi.functions[frame.func].register_count as usize);
        }
        let depth = machine.stack.len();
        match machine.step(&mochi) {
            Step::Continue => {
                let d = machine.stack.len();
                assert!(d + 1 >= depth && d <= depth + 1);
            }
            Step::Finished(v) => {
                assert_eq!(depth, 1);
                assert_eq!(v, 9);
                break;
            }
            s => panic!("unexpected step {:?}", s),
        }
    }
}

#[test]
fn typed_ops_exist_for_integer_types() {
    let ops = [BinOp::Add, BinOp::Sub, BinOp::Mul, BinOp::Div, BinOp::Rem, BinOp::LT, BinOp::LE];
    for op in ops {
        for t in ALL_TYPES {
            let integer = t != PrimitiveType::Bool && t != PrimitiveType::Integer;
            assert_eq!(op.to_typed_op(t).is_some(), integer);
        }
    }
}

fn kinds(src: &str) -> Vec<TokenKind<'_>> {
    let mut lexer = StringLexer::new(src);
    lexer.lex().unwrap().into_iter().map(|t| t.0).collect()
}

#[test]
fn ascii_words_lex_whole() {
    assert_eq!(kinds("fn"), vec![TokenKind::Keyword(Keyword::Fn), TokenKind::EOF]);
    assert_eq!(kinds("x1_y2"), vec![TokenKind::Identifier("x1_y2"), TokenKind::EOF]);
    assert_eq!(kinds("i32"), vec![TokenKind::Type(PrimitiveType::I32), TokenKind::EOF]);
    let mut lexer = StringLexer::new("letter");
    let tokens: Vec<_> = lexer.lex().unwrap().into_iter().collect();
    assert_eq!(tokens[0].span(), chibi_script::syntax::lexer::Span(0, 6));
}

#[test]
fn token_text_is_its_lexeme() {
    let src = "fn f(a: u8) -> bool { let x1: i32 = 1234; a >= 7 && !true || x1 != 0 }";
    let mut lexer = StringLexer::new(src);
    let tokens: Vec<_> = lexer.lex().unwrap().into_iter().collect();
    for t in &tokens[..tokens.len() - 1] {
        let text = &src[t.span().0..t.span().1];
        match t.kind() {
            TokenKind::Number(v) => assert_eq!(text, v.to_string()),
            TokenKind::Identifier(s) => assert_eq!(text, *s),
            TokenKind::Keyword(k) => assert_eq!(Keyword::from_word(text).ok(), Some(*k)),
            TokenKind::Type(ty) => assert_eq!(PrimitiveType::from_word(text).ok(), Some(*ty)),
            TokenKind::GE => assert_eq!(text, ">="),
            TokenKind::DoubleAmpersand => assert_eq!(text, "&&"),
            TokenKind::DoubleVbar => assert_eq!(text, "||"),
            TokenKind::NE => assert_eq!(text, "!="),
            TokenKind::Arrow => assert_eq!(text, "->"),
            _ => assert_eq!(text.len(), 1),
        }
    }
}

#[test]
fn translated_program_layout() {
    let mochi = compile("fn g(a: u8, b: bool) -> u8 { a } fn main() { g(1, true); }");
    assert_eq!(mochi.functions.len(), 3);
    assert_eq!(mochi.functions[0].name, "putc");
    assert_eq!(mochi.functions[1].name, "g");
    assert_eq!(
        mochi.functions[1].signature,
        Signature::new(
            &vec![TypeName::Primitive(PrimitiveType::U8), TypeName::Primitive(PrimitiveType::Bool)],
            &TypeName::Primitive(PrimitiveType::U8)
        )
    );
    assert_eq!(mochi.functions[2].name, "main");
    for f in &mochi.functions[1..] {
        assert_eq!(
            f.code.last(),
            Some(&chibi_script::instruction::Instruction(chibi_script::instruction::OpCode::Ret, 0, 0, 0))
        );
    }
}

#[test]
fn if_jumps_land_at_the_end() {
    let mochi = compile(
        "fn main() -> i32 { let x: i32 = 3; if x == 1 { 10 } else if x == 2 { 20 } else if x == 3 { 30 } else { 40 } }",
    );
    let code = &mochi.functions[1].code;
    let target = |i: usize| -> usize {
        let off = ((code[i].2 as u32) << 16 | code[i].3 as u32) as i32 as i64;
        (i as i64 + 1 + off) as usize
    };
    let jumps: Vec<usize> = (0..code.len()).filter(|&i| code[i].0 == OpCode::Jump).collect();
    let zs: Vec<usize> = (0..code.len()).filter(|&i| code[i].0 == OpCode::JumpZ).collect();
    assert_eq!(jumps.len(), 3);
    assert_eq!(zs.len(), 3);
    let end = target(jumps[0]);
    for &j in &jumps {
        assert_eq!(target(j), end);
    }
    for (z, j) in zs.iter().zip(jumps.iter()) {
        assert_eq!(target(*z), j + 1);
    }
}

#[test]
fn if_types_settle_in_order() {
    let err = |src: &str| {
        let mut lexer = StringLexer::new(src);
        let mut tokens = lexer.lex().unwrap();
        translate(parse(&mut tokens).unwrap()).unwrap_err()
    };
    assert_eq!(
        err("fn main() -> i32 { if true { 1 } }").kind(),
        &ErrorKind::MismatchedTypes(TypeName::Unit, TypeName::Primitive(PrimitiveType::I32))
    );
    assert_eq!(
        err("fn main() -> i32 { if true { 1 } else if false { unit } else { 2 } }").kind(),
        &ErrorKind::MismatchedTypes(TypeName::Primitive(PrimitiveType::I32), TypeName::Unit)
    );
    compile("fn main() { if true { unit } else if false { unit } }");
}

#[test]
fn negated_literals_are_constants() {
    let mochi = compile("fn main() -> i64 { -5 }");
    assert!(mochi.functions[1].constants.contains(&((-5i64) as u64)));
}
