use chibi_script::report::{locate, SourceLine};
use chibi_script::syntax::lexer::Span;

#[test]
fn locates_the_line_of_an_offset() {
    let program = "fn main() {\n  y\n}";
    let line = locate(program, Span(14, 15)).unwrap();
    assert_eq!(line, SourceLine { number: 2, column: 2, start: 12, end: 15 });
    assert_eq!(&program[line.start..line.end], "  y");
    assert_eq!(line.header(Span(14, 15)), "unexpected token at line 2 column 2 (span: (14, 15))");
    assert_eq!(line.pointer(Span(14, 15)), "  ^");
}

#[test]
fn first_line_and_wide_span() {
    let program = "let abc = 1;";
    let line = locate(program, Span(4, 7)).unwrap();
    assert_eq!(line, SourceLine { number: 1, column: 4, start: 0, end: 12 });
    assert_eq!(line.pointer(Span(4, 7)), "    ^^^");
}

#[test]
fn carriage_return_belongs_to_the_line_ending() {
    let program = "a\r\nbc\r\n";
    assert_eq!(locate(program, Span(0, 1)), Some(SourceLine { number: 1, column: 0, start: 0, end: 1 }));
    assert_eq!(locate(program, Span(1, 2)), None);
    assert_eq!(locate(program, Span(2, 3)), None);
    assert_eq!(locate(program, Span(4, 5)), Some(SourceLine { number: 2, column: 1, start: 3, end: 5 }));
    assert_eq!(locate(program, Span(5, 6)), None);
}

#[test]
fn a_lone_carriage_return_at_the_end_stays_in_the_line() {
    let program = "x\nab\r";
    assert_eq!(locate(program, Span(4, 5)), Some(SourceLine { number: 2, column: 2, start: 2, end: 5 }));
}

#[test]
fn offsets_outside_any_line_text() {
    assert_eq!(locate("", Span(0, 0)), None);
    assert_eq!(locate("ab\n", Span(2, 3)), None);
    assert_eq!(locate("ab\n", Span(3, 3)), None);
    assert_eq!(locate("ab", Span(7, 8)), None);
    assert_eq!(locate("\n\nz", Span(2, 3)), Some(SourceLine { number: 3, column: 0, start: 2, end: 3 }));
}

#[test]
fn agrees_with_str_lines() {
    let program = "fn a() {}\r\n\n  fn b() -> i32 { 1 }\nlast line";
    for pos in 0..program.len() + 2 {
        let mut expected = None;
        for (i, line) in program.lines().enumerate() {
            let start = line.as_ptr() as usize - program.as_ptr() as usize;
            let end = start + line.len();
            if (start..end).contains(&pos) {
                expected = Some(SourceLine { number: i + 1, column: pos - start, start, end });
            }
        }
        assert_eq!(locate(program, Span(pos, pos + 1)), expected);
    }
}
