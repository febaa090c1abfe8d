use chibi_script::syntax::lexer::{Lexer, StringLexer};
use chibi_script::syntax::parser::{
    parse, BinOp, Declaration, Expression, IfExpr, ParseError, Program, Spanned, Statement,
};

fn parse_success(src: &str) -> Program<'_> {
    let mut lexer = StringLexer::new(src);
    let mut tokens = lexer.lex().unwrap();
    parse(&mut tokens).unwrap()
}

fn parse_error(src: &str) -> ParseError {
    let mut lexer = StringLexer::new(src);
    let mut tokens = lexer.lex().unwrap();
    parse(&mut tokens).unwrap_err()
}

fn expect_expr<'a, 'src>(stmt: &'a Statement<'src>) -> &'a Expression<'src> {
    match stmt {
        Statement::Expression(Spanned(expr, _)) => expr,
        _ => panic!("expected expr"),
    }
}

fn expect_semicolonned_expr<'a, 'src>(stmt: &'a Statement<'src>) -> &'a Expression<'src> {
    match stmt {
        Statement::SemicolonnedExpr(Spanned(expr, _)) => expr,
        _ => panic!("expected semicolonned expr"),
    }
}

fn expect_if_expr<'a, 'src>(expr: &'a Expression<'src>) -> &'a IfExpr<'src> {
    match expr {
        Expression::If(if_clause, _, _) => if_clause.node(),
        _ => panic!("expected if expression"),
    }
}

fn expect_binop<'a, 'src>(expr: &'a Expression<'src>, expected_op: BinOp) -> (&'a Expression<'src>, &'a Expression<'src>) {
    match expr {
        Expression::BinOp { lhs, rhs, op } => {
            assert_eq!(expected_op, *op);
            (lhs.node(), rhs.node())
        },
        _ => panic!("expected binary operation"),
    }
}

fn expect_number(expr: &Expression, expected: u64) {
    match expr {
        Expression::Number(n) => {
            assert_eq!(expected, *n);
        },
        _ => panic!("expected number"),
    }
}

fn body<'a, 'src>(program: &'a Program<'src>, k: usize) -> &'a Vec<Spanned<Statement<'src>>> {
    let Declaration::FnDecl { body, .. } = &program.0[k];
    body.node()
}

#[test]
fn parse_simple_program() {
    let _ = parse_success("fn main() {}");
}

#[test]
fn parse_multiple_fn_defs() {
    let _ = parse_success(
        r#"
            fn hoge() {}
            fn fuga() {}
            fn main() {}
        "#,
    );
}

#[test]
fn parse_fn_def_with_arg() {
    let _ = parse_success(
        r#"
            fn none_returned() {}

            fn id(x: i32) -> i32 {
                x
            }

            fn add(a: i32, b: i32) -> i32 {
                a + b
            }

            fn multiply_add(a: i32, b: i32, c: i32) -> i32 {
                a * b + c
            }

            fn return_unit(a: i32, b: i32, c: i32, x: i32) -> unit {
                a * x * x + b * x + c;
            }
        "#,
    );
}

#[test]
fn parse_let() {
    let _ = parse_success(
        r#"
            fn main() {
                let a: i32 = 42;
                let x: i32;
            }
        "#,
    );
}

#[test]
fn parse_expr_with_semicolon() {
    let _ = parse_success(
        r#"
            fn return_unit(a: i32, b: i32, c: i32, x: i32) -> unit {
                a * x * x + b * x + c;
            }
        "#,
    );
}

#[test]
fn parse_operator_precedence() {
    let program = parse_success(
        r#"
            fn main() {
                1 + 2 * 3;
                (1 + 2) * 3;
            }
        "#,
    );
    let body = body(&program, 0);

    let expr1 = expect_semicolonned_expr(body[0].node());
    let (lhs1, rhs1) = expect_binop(expr1, BinOp::Add);
    expect_number(lhs1, 1);
    let (mul_lhs, mul_rhs) = expect_binop(rhs1, BinOp::Mul);
    expect_number(mul_lhs, 2);
    expect_number(mul_rhs, 3);

    let expr2 = expect_semicolonned_expr(body[1].node());
    let (lhs2, rhs2) = expect_binop(expr2, BinOp::Mul);
    expect_number(rhs2, 3);
    let (add_lhs, add_rhs) = expect_binop(lhs2, BinOp::Add);
    expect_number(add_lhs, 1);
    expect_number(add_rhs, 2);
}

#[test]
fn parse_assignment() {
    let _ = parse_success(
        r#"
            fn main() {
                let x: i32 = 42;
            }
        "#,
    );
}

#[test]
fn parse_call_with_value() {
    let _ = parse_success(
        r#"
            fn add(a: i32, b: i32) -> i32 {
                a + b
            }

            fn main() {
                let x: i32 = 42;
                add(x, 1);
            }
        "#,
    );
}

#[test]
fn parse_call_no_args() {
    let _ = parse_success(
        r#"
            fn do_nothing() {}

            fn main() {
                do_nothing()
            }
        "#,
    );
}

#[test]
fn parse_if_no_else() {
    let _ = parse_success(
        r#"
            fn main() {
                let _: unit = if false {
                    5
                };
            }
        "#,
    );
}

#[test]
fn parse_if_else() {
    let _ = parse_success(
        r#"
            fn max(a: i32, b: i32) -> i32 {
                if a > b {
                    a
                }
                else {
                    b
                }
            }

            fn main() {
                max(42, 5);
            }
        "#,
    );
}

#[test]
fn parse_if_ifelse_else() {
    let _ = parse_success(
        r#"
            fn max3(a: i32, b: i32, c: i32) -> i32 {
                if a >= b && a >=c {
                    a
                }
                else if b >= a && b >= c{
                    b
                }
                else {
                    c
                }
            }

            fn main() {
                max3(42, 5, 81);
            }
        "#,
    );
}

#[test]
fn parse_logical_expr_precedence() {
    let program = parse_success(
        r#"
            fn main() {
                if 1 >= 2 && 3 != 4 || 5 < 6 {}
            }
        "#,
    );
    let body = body(&program, 0);
    let expr = expect_expr(body[0].node());
    let cond = expect_if_expr(expr).cond().node();

    let (lhs1, rhs1) = expect_binop(cond, BinOp::LogicalOr);
    let (lhs2, rhs2) = expect_binop(lhs1, BinOp::LogicalAnd);
    let (lhs3, rhs3) = expect_binop(lhs2, BinOp::GE);
    expect_number(lhs3, 1);
    expect_number(rhs3, 2);
    let (lhs4, rhs4) = expect_binop(rhs2, BinOp::NotEqual);
    expect_number(lhs4, 3);
    expect_number(rhs4, 4);
    let (lhs5, rhs5) = expect_binop(rhs1, BinOp::LT);
    expect_number(lhs5, 5);
    expect_number(rhs5, 6);
}

#[test]
fn parse_err_unexpected_token() {
    let srcs = [
        r#"fn main(,) {}"#,
        r#"fn main() { let : i32; }"#,
        r#"fn main( -> ) {}"#,
        r#"fn main() {;}"#,
        r#"fn main() { let let: unit; }"#,
    ];
    for src in srcs {
        let err = parse_error(src);
        assert!(matches!(err, ParseError::UnexpectedToken(_)))
    }
}

#[test]
fn parse_err_unexpected_eof() {
    let srcs = [
        r#"fn main() {"#,
        r#"fn main() { let x: i32 ="#,
        r#"fn main"#,
        r#"fn main()"#,
        r#"fn main() ->"#,
    ];
    for src in srcs {
        let err = parse_error(src);
        assert_eq!(err, ParseError::UnexpectedEOF)
    }
}

#[test]
fn parse_err_fn_def() {
    let srcs = [r#"fn main(a) {}"#, r#"fn main(a: i32, ) {}"#];
    for src in srcs {
        let err = parse_error(src);
        assert!(matches!(err, ParseError::UnexpectedToken(_)))
    }
}

#[test]
fn parse_err_fncall() {
    let srcs = [r#"fn main() { f(, 1); }"#, r#"fn main() { f(1, ); }"#];
    for src in srcs {
        let err = parse_error(src);
        assert!(matches!(err, ParseError::UnexpectedToken(_)))
    }
}

#[test]
fn parse_err_if_else() {
    let srcs = [
        r#"fn main() {
                if false {
                    42
                }
                else 1
            }"#,
        r#"fn main() {
                if false {
                    42
                }
                else {
                    3
                }
                else {
                    7
                }
            }"#,
    ];
    for src in srcs {
        let err = parse_error(src);
        assert!(matches!(err, ParseError::UnexpectedToken(_)))
    }
}

#[test]
fn parse_spans() {
    let program = parse_success("fn f(x: i32) -> i32 { x + 1 }");
    let Declaration::FnDecl { name, params, ret_ty, body } = &program.0[0];
    assert_eq!(name.0, "f");
    assert_eq!(params.len(), 1);
    assert_eq!(params[0].0 .0, "x");
    assert_eq!(ret_ty.span(), chibi_script::syntax::lexer::Span(16, 19));
    assert_eq!(body.span(), chibi_script::syntax::lexer::Span(20, 29));
    let stmt = &body.node()[0];
    assert_eq!(stmt.span(), chibi_script::syntax::lexer::Span(22, 27));
}

#[test]
fn parse_unary_and_unit_return() {
    let program = parse_success("fn f() { -x; !y }");
    let Declaration::FnDecl { ret_ty, .. } = &program.0[0];
    assert_eq!(ret_ty.span(), chibi_script::syntax::lexer::Span(0, 6));
    let body = body(&program, 0);
    assert!(matches!(expect_semicolonned_expr(body[0].node()), Expression::UniOp { .. }));
    assert!(matches!(expect_expr(body[1].node()), Expression::UniOp { .. }));
}

#[test]
fn parse_leaves_tokens_after_error() {
    let mut lexer = StringLexer::new("fn main( ; ) {}");
    let mut tokens = lexer.lex().unwrap();
    let before = tokens.len();
    assert!(matches!(parse(&mut tokens), Err(ParseError::UnexpectedToken(_))));
    assert_eq!(tokens.len(), before - 3);
}
