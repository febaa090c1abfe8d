//! Where in the source an error lies, for reporting it: the line that holds
//! a byte offset, and the text that introduces and points at it.
use vstd::prelude::*;
use vstd::string::StringSliceAdditionalSpecFns;
use crate::syntax::lexer::Span;
use crate::text::{decimal, push_char, push_decimal};

verus! {

/// The line of the source that holds an offset: its number, counted from
/// one, the offset's column in bytes, and the byte range of the line's text
/// without its line ending.
#[derive(Debug, Clone, Copy, PartialEq, Eq, Structural)]
pub struct SourceLine {
    pub number: usize,
    pub column: usize,
    pub start: usize,
    pub end: usize,
}

/// The index of the first line feed at or after `i`, or the length where
/// there is none.
pub open spec fn next_newline(b: Seq<u8>, i: int) -> int
    decreases b.len() - i,
{
    if i < 0 || i >= b.len() {
        b.len() as int
    } else if b[i] == 10 {
        i
    } else {
        next_newline(b, i + 1)
    }
}

/// Where the text of the line that starts at `i` ends: before its line
/// feed, and before a carriage return that precedes the line feed.
pub open spec fn text_end(b: Seq<u8>, i: int) -> int {
    let nl = next_newline(b, i);
    if i < nl < b.len() && b[nl - 1] == 13 {
        nl - 1
    } else {
        nl
    }
}

/// The next line feed lies at or after `i` and none lies between.
pub proof fn lemma_next_newline(b: Seq<u8>, i: int)
    requires
        0 <= i <= b.len(),
    ensures
        i <= next_newline(b, i) <= b.len(),
        next_newline(b, i) < b.len() ==> b[next_newline(b, i)] == 10,
        forall|j: int| i <= j < next_newline(b, i) ==> b[j] != 10,
    decreases b.len() - i,
{
    if i < b.len() && b[i] != 10 {
        lemma_next_newline(b, i + 1);
    }
}

/// The number, start and end of the line, from the one that starts at `i`
/// with number `number` on, whose text holds the offset `pos`: lines are
/// what `str::lines` gives, each ended by a line feed or by the end of the
/// source, and no line starts at the end of the source.
pub open spec fn line_of(b: Seq<u8>, i: int, number: int, pos: int) -> Option<(int, int, int)>
    decreases b.len() - i,
{
    if i < 0 || i >= b.len() {
        None
    } else {
        let e = text_end(b, i);
        if i <= pos < e {
            Some((number, i, e))
        } else if next_newline(b, i) >= b.len() {
            None
        } else {
            proof {
                lemma_next_newline(b, i);
            }
            line_of(b, next_newline(b, i) + 1, number + 1, pos)
        }
    }
}

/// The line of `program` whose text holds the offset `pos`, with the
/// offset's column.
pub open spec fn source_line(program: Seq<u8>, pos: int) -> Option<SourceLine> {
    match line_of(program, 0, 1, pos) {
        Some((n, s, e)) => Some(
            SourceLine { number: n as usize, column: (pos - s) as usize, start: s as usize, end: e as usize },
        ),
        None => None,
    }
}

/// The line of `program` whose text holds the start of `span`; `None`
/// where none does.
pub fn locate(program: &str, span: Span) -> (r: Option<SourceLine>)
    ensures
        r == source_line(program.spec_bytes(), span.0 as int),
{
    let b = program.as_bytes();
    let ghost bytes = b@;
    let pos = span.0;
    let mut i: usize = 0;
    let mut seen: usize = 0;
    while i < b.len()
        invariant
            bytes == b@,
            bytes == program.spec_bytes(),
            pos == span.0,
            i <= b.len(),
            seen <= i,
            line_of(bytes, 0, 1, pos as int) == line_of(bytes, i as int, seen + 1, pos as int),
        decreases b.len() - i,
    {
        let mut j = i;
        while j < b.len() && b[j] != 10
            invariant
                bytes == b@,
                i <= j <= b.len(),
                next_newline(bytes, i as int) == next_newline(bytes, j as int),
            decreases b.len() - j,
        {
            j += 1;
        }
        proof {
            lemma_next_newline(bytes, j as int);
            assert(next_newline(bytes, i as int) == j);
        }
        let e = if i < j && j < b.len() && b[j - 1] == 13 {
            j - 1
        } else {
            j
        };
        if i <= pos && pos < e {
            return Some(SourceLine { number: seen + 1, column: pos - i, start: i, end: e });
        }
        if j >= b.len() {
            return None;
        }
        i = j + 1;
        seen += 1;
    }
    None
}

/// The line that introduces an error at `span`.
pub open spec fn header_text(l: SourceLine, span: Span) -> Seq<char> {
    "unexpected token at line "@ + decimal(l.number as nat) + " column "@ + decimal(l.column as nat)
        + " (span: ("@ + decimal(span.0 as nat) + ", "@ + decimal(span.1 as nat) + "))"@
}

/// Spaces up to the column, then a caret under each byte of the span.
pub open spec fn pointer_text(l: SourceLine, span: Span) -> Seq<char> {
    Seq::new(l.column as nat, |i: int| ' ') + Seq::new((span.1 - span.0) as nat, |i: int| '^')
}

impl SourceLine {
    /// The line that introduces an error at `span` on this line.
    pub fn header(&self, span: Span) -> (r: String)
        ensures
            r@ == header_text(*self, span),
    {
        let mut s = String::new();
        s.append("unexpected token at line ");
        push_decimal(&mut s, self.number as u64);
        s.append(" column ");
        push_decimal(&mut s, self.column as u64);
        s.append(" (span: (");
        push_decimal(&mut s, span.0 as u64);
        s.append(", ");
        push_decimal(&mut s, span.1 as u64);
        s.append("))");
        proof {
            assert(s@ =~= header_text(*self, span));
        }
        s
    }

    /// The line that points at `span` under this line's text.
    pub fn pointer(&self, span: Span) -> (r: String)
        requires
            span.0 <= span.1,
        ensures
            r@ == pointer_text(*self, span),
    {
        let mut s = String::new();
        let mut k: usize = 0;
        while k < self.column
            invariant
                k <= self.column,
                s@ == Seq::new(k as nat, |i: int| ' '),
            decreases self.column - k,
        {
            push_char(&mut s, ' ');
            k += 1;
            proof {
                assert(s@ =~= Seq::new(k as nat, |i: int| ' '));
            }
        }
        let ghost spaces = s@;
        let width = span.1 - span.0;
        let mut k: usize = 0;
        while k < width
            invariant
                k <= width,
                s@ == spaces + Seq::new(k as nat, |i: int| '^'),
            decreases width - k,
        {
            push_char(&mut s, '^');
            k += 1;
            proof {
                assert(s@ =~= spaces + Seq::new(k as nat, |i: int| '^'));
            }
        }
        s
    }
}

} // verus!
