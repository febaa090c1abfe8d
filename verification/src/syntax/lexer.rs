//! The lexer of the monye language: it turns source text into tokens whose
//! spans are byte offsets into the source.
use std::collections::VecDeque;
use vstd::prelude::*;
use crate::text::{
    alphanumeric, byte_len, byte_pos, chars_of, digit_value, numeric,
    is_alphanumeric, is_ascii_digit, is_ascii_whitespace, is_ascii_ws, is_ident_start, is_numeric,
    lemma_byte_len_ascii, lemma_byte_pos_mono, lemma_byte_pos_step, len_utf8, slice_chars,
    str_byte_len, str_eq,
};

verus! {

broadcast use vstd::seq_lib::group_seq_properties;

/// A lexer produces the whole token stream of its input, ending with `EOF`.
pub trait Lexer<'src> {
    /// The tokens from the current position up to and including the end of input.
    fn lex(&mut self) -> Result<VecDeque<Token<'src>>, LexError>;
}

/// A byte range `[start, end)` of the source.
#[derive(Copy, Clone, Debug, PartialEq, Eq, Structural)]
pub struct Span(pub usize, pub usize);

impl Span {
    pub fn start(&self) -> (r: usize)
        ensures
            r == self.0,
    {
        self.0
    }

    pub fn end(&self) -> (r: usize)
        ensures
            r == self.1,
    {
        self.1
    }
}

/// A token: its kind and where it stands in the source.
#[derive(Debug, Clone, Copy)]
pub struct Token<'src>(pub TokenKind<'src>, pub Span);

/// The mathematical value of a token: its kind, with identifiers as
/// character sequences, and its span.
pub type TokenV = (TokenKindV, Span);

impl<'src> View for Token<'src> {
    type V = TokenV;

    open spec fn view(&self) -> TokenV {
        (self.0@, self.1)
    }
}

impl<'src> Token<'src> {
    pub fn kind(&self) -> (r: &TokenKind<'src>)
        ensures
            *r == self.0,
    {
        &self.0
    }

    pub fn span(&self) -> (r: Span)
        ensures
            r == self.1,
    {
        self.1
    }
}

/// Two tokens are equal when their kinds are; spans are not compared.
impl<'src> PartialEq for Token<'src> {
    fn eq(&self, other: &Self) -> (r: bool) {
        self.0.eq(&other.0)
    }
}

impl<'src> vstd::std_specs::cmp::PartialEqSpecImpl for Token<'src> {
    open spec fn obeys_eq_spec() -> bool {
        true
    }

    open spec fn eq_spec(&self, other: &Self) -> bool {
        self.0@ == other.0@
    }
}

#[derive(Debug, Clone, Copy)]
pub enum TokenKind<'src> {
    Number(u64),
    Keyword(Keyword),
    Identifier(&'src str),
    Type(PrimitiveType),
    LParen,
    RParen,
    LBrace,
    RBrace,
    Comma,
    Dot,
    Colon,
    Semicolon,
    VBar,
    Ampersand,
    Plus,
    Minus,
    Asterisk,
    Slash,
    Percent,
    Equal,
    Arrow,
    DoubleEqual,
    LT,
    GT,
    LE,
    GE,
    NE,
    Exclamation,
    DoubleAmpersand,
    DoubleVbar,
    EOF,
}

/// The mathematical value of a token kind.
pub enum TokenKindV {
    Number(u64),
    Keyword(Keyword),
    Identifier(Seq<char>),
    Type(PrimitiveType),
    LParen,
    RParen,
    LBrace,
    RBrace,
    Comma,
    Dot,
    Colon,
    Semicolon,
    VBar,
    Ampersand,
    Plus,
    Minus,
    Asterisk,
    Slash,
    Percent,
    Equal,
    Arrow,
    DoubleEqual,
    LT,
    GT,
    LE,
    GE,
    NE,
    Exclamation,
    DoubleAmpersand,
    DoubleVbar,
    EOF,
}

impl<'src> View for TokenKind<'src> {
    type V = TokenKindV;

    open spec fn view(&self) -> TokenKindV {
        match *self {
            TokenKind::Number(n) => TokenKindV::Number(n),
            TokenKind::Keyword(k) => TokenKindV::Keyword(k),
            TokenKind::Identifier(s) => TokenKindV::Identifier(s@),
            TokenKind::Type(t) => TokenKindV::Type(t),
            TokenKind::LParen => TokenKindV::LParen,
            TokenKind::RParen => TokenKindV::RParen,
            TokenKind::LBrace => TokenKindV::LBrace,
            TokenKind::RBrace => TokenKindV::RBrace,
            TokenKind::Comma => TokenKindV::Comma,
            TokenKind::Dot => TokenKindV::Dot,
            TokenKind::Colon => TokenKindV::Colon,
            TokenKind::Semicolon => TokenKindV::Semicolon,
            TokenKind::VBar => TokenKindV::VBar,
            TokenKind::Ampersand => TokenKindV::Ampersand,
            TokenKind::Plus => TokenKindV::Plus,
            TokenKind::Minus => TokenKindV::Minus,
            TokenKind::Asterisk => TokenKindV::Asterisk,
            TokenKind::Slash => TokenKindV::Slash,
            TokenKind::Percent => TokenKindV::Percent,
            TokenKind::Equal => TokenKindV::Equal,
            TokenKind::Arrow => TokenKindV::Arrow,
            TokenKind::DoubleEqual => TokenKindV::DoubleEqual,
            TokenKind::LT => TokenKindV::LT,
            TokenKind::GT => TokenKindV::GT,
            TokenKind::LE => TokenKindV::LE,
            TokenKind::GE => TokenKindV::GE,
            TokenKind::NE => TokenKindV::NE,
            TokenKind::Exclamation => TokenKindV::Exclamation,
            TokenKind::DoubleAmpersand => TokenKindV::DoubleAmpersand,
            TokenKind::DoubleVbar => TokenKindV::DoubleVbar,
            TokenKind::EOF => TokenKindV::EOF,
        }
    }
}

/// A number for each kind of token, telling the kinds apart.
pub open spec fn kind_tag(k: TokenKindV) -> u8 {
    match k {
        TokenKindV::Number(_) => 0,
        TokenKindV::Keyword(_) => 1,
        TokenKindV::Identifier(_) => 2,
        TokenKindV::Type(_) => 3,
        TokenKindV::LParen => 4,
        TokenKindV::RParen => 5,
        TokenKindV::LBrace => 6,
        TokenKindV::RBrace => 7,
        TokenKindV::Comma => 8,
        TokenKindV::Dot => 9,
        TokenKindV::Colon => 10,
        TokenKindV::Semicolon => 11,
        TokenKindV::VBar => 12,
        TokenKindV::Ampersand => 13,
        TokenKindV::Plus => 14,
        TokenKindV::Minus => 15,
        TokenKindV::Asterisk => 16,
        TokenKindV::Slash => 17,
        TokenKindV::Percent => 18,
        TokenKindV::Equal => 19,
        TokenKindV::Arrow => 20,
        TokenKindV::DoubleEqual => 21,
        TokenKindV::LT => 22,
        TokenKindV::GT => 23,
        TokenKindV::LE => 24,
        TokenKindV::GE => 25,
        TokenKindV::NE => 26,
        TokenKindV::Exclamation => 27,
        TokenKindV::DoubleAmpersand => 28,
        TokenKindV::DoubleVbar => 29,
        TokenKindV::EOF => 30,
    }
}

impl<'src> TokenKind<'src> {
    fn tag(&self) -> (r: u8)
        ensures
            r == kind_tag(self@),
    {
        match self {
            TokenKind::Number(_) => 0,
            TokenKind::Keyword(_) => 1,
            TokenKind::Identifier(_) => 2,
            TokenKind::Type(_) => 3,
            TokenKind::LParen => 4,
            TokenKind::RParen => 5,
            TokenKind::LBrace => 6,
            TokenKind::RBrace => 7,
            TokenKind::Comma => 8,
            TokenKind::Dot => 9,
            TokenKind::Colon => 10,
            TokenKind::Semicolon => 11,
            TokenKind::VBar => 12,
            TokenKind::Ampersand => 13,
            TokenKind::Plus => 14,
            TokenKind::Minus => 15,
            TokenKind::Asterisk => 16,
            TokenKind::Slash => 17,
            TokenKind::Percent => 18,
            TokenKind::Equal => 19,
            TokenKind::Arrow => 20,
            TokenKind::DoubleEqual => 21,
            TokenKind::LT => 22,
            TokenKind::GT => 23,
            TokenKind::LE => 24,
            TokenKind::GE => 25,
            TokenKind::NE => 26,
            TokenKind::Exclamation => 27,
            TokenKind::DoubleAmpersand => 28,
            TokenKind::DoubleVbar => 29,
            TokenKind::EOF => 30,
        }
    }
}

/// Two token kinds are equal when they are the same kind with equal contents.
impl<'src> PartialEq for TokenKind<'src> {
    fn eq(&self, other: &Self) -> (r: bool) {
        match (self, other) {
            (TokenKind::Number(a), TokenKind::Number(b)) => *a == *b,
            (TokenKind::Keyword(a), TokenKind::Keyword(b)) => *a == *b,
            (TokenKind::Identifier(a), TokenKind::Identifier(b)) => str_eq(a, b),
            (TokenKind::Type(a), TokenKind::Type(b)) => *a == *b,
            _ => {
                let t = self.tag();
                let u = other.tag();
                t == u && t > 3
            },
        }
    }
}

impl<'src> vstd::std_specs::cmp::PartialEqSpecImpl for TokenKind<'src> {
    open spec fn obeys_eq_spec() -> bool {
        true
    }

    open spec fn eq_spec(&self, other: &Self) -> bool {
        self@ == other@
    }
}

#[derive(PartialEq, Eq, Structural, Debug, Clone, Copy)]
pub enum Keyword {
    Fn,
    Let,
    If,
    Else,
    True,
    False,
    Unit,
    Never,
}

/// The spelling of each keyword.
pub open spec fn keyword_str(k: Keyword) -> Seq<char> {
    match k {
        Keyword::Fn => seq!['f', 'n'],
        Keyword::Let => seq!['l', 'e', 't'],
        Keyword::If => seq!['i', 'f'],
        Keyword::Else => seq!['e', 'l', 's', 'e'],
        Keyword::True => seq!['t', 'r', 'u', 'e'],
        Keyword::False => seq!['f', 'a', 'l', 's', 'e'],
        Keyword::Unit => seq!['u', 'n', 'i', 't'],
        Keyword::Never => seq!['n', 'e', 'v', 'e', 'r'],
    }
}

/// The keyword spelled `w`, if any.
#[verifier::opaque]
pub open spec fn keyword_of(w: Seq<char>) -> Option<Keyword> {
    if w == keyword_str(Keyword::Fn) {
        Some(Keyword::Fn)
    } else if w == keyword_str(Keyword::Let) {
        Some(Keyword::Let)
    } else if w == keyword_str(Keyword::If) {
        Some(Keyword::If)
    } else if w == keyword_str(Keyword::Else) {
        Some(Keyword::Else)
    } else if w == keyword_str(Keyword::True) {
        Some(Keyword::True)
    } else if w == keyword_str(Keyword::False) {
        Some(Keyword::False)
    } else if w == keyword_str(Keyword::Unit) {
        Some(Keyword::Unit)
    } else if w == keyword_str(Keyword::Never) {
        Some(Keyword::Never)
    } else {
        None
    }
}

impl Keyword {
    fn as_str(&self) -> (r: &'static str)
        ensures
            r@ == keyword_str(*self),
    {
        match self {
            Keyword::Fn => {
                proof {
                    reveal_strlit("fn");
                }
                "fn"
            },
            Keyword::Let => {
                proof {
                    reveal_strlit("let");
                }
                "let"
            },
            Keyword::If => {
                proof {
                    reveal_strlit("if");
                }
                "if"
            },
            Keyword::Else => {
                proof {
                    reveal_strlit("else");
                }
                "else"
            },
            Keyword::True => {
                proof {
                    reveal_strlit("true");
                }
                "true"
            },
            Keyword::False => {
                proof {
                    reveal_strlit("false");
                }
                "false"
            },
            Keyword::Unit => {
                proof {
                    reveal_strlit("unit");
                }
                "unit"
            },
            Keyword::Never => {
                proof {
                    reveal_strlit("never");
                }
                "never"
            },
        }
    }

    /// The keyword spelled `s`; an error where `s` spells none.
    pub fn from_word(s: &str) -> (r: Result<Keyword, KeywordError>)
        ensures
            match keyword_of(s@) {
                Some(k) => r == Ok::<Keyword, KeywordError>(k),
                None => r is Err,
            },
    {
        let all = [
            Keyword::Fn,
            Keyword::Let,
            Keyword::If,
            Keyword::Else,
            Keyword::True,
            Keyword::False,
            Keyword::Unit,
            Keyword::Never,
        ];
        let mut i: usize = 0;
        while i < 8
            invariant
                0 <= i <= 8,
                all@ == seq![
                    Keyword::Fn,
                    Keyword::Let,
                    Keyword::If,
                    Keyword::Else,
                    Keyword::True,
                    Keyword::False,
                    Keyword::Unit,
                    Keyword::Never,
                ],
                forall|k: int| 0 <= k < i ==> keyword_str(all@[k]) != s@,
            decreases 8 - i,
        {
            proof {
                reveal(keyword_of);
            }
            let k = all[i];
            if str_eq(k.as_str(), s) {
                return Ok(k);
            }
            i = i + 1;
        }
        proof {
            reveal(keyword_of);
            assert(keyword_str(all@[0]) != s@);
            assert(keyword_str(all@[1]) != s@);
            assert(keyword_str(all@[2]) != s@);
            assert(keyword_str(all@[3]) != s@);
            assert(keyword_str(all@[4]) != s@);
            assert(keyword_str(all@[5]) != s@);
            assert(keyword_str(all@[6]) != s@);
            assert(keyword_str(all@[7]) != s@);
        }
        Err(KeywordError {  })
    }
}

pub struct KeywordError {}

impl std::str::FromStr for Keyword {
    type Err = KeywordError;

    /// The keyword spelled `s`; an error where `s` spells none.
    fn from_str(s: &str) -> (r: Result<Self, Self::Err>)
        ensures
            match keyword_of(s@) {
                Some(k) => r == Ok::<Keyword, KeywordError>(k),
                None => r is Err,
            },
    {
        Keyword::from_word(s)
    }
}

#[derive(Debug, Clone, Copy, PartialEq, Eq, Structural, Hash)]
pub enum PrimitiveType {
    I8,
    U8,
    I16,
    U16,
    I32,
    U32,
    I64,
    U64,
    Integer,
    Bool,
}

/// The spelling of each primitive type.
pub open spec fn type_str(t: PrimitiveType) -> Seq<char> {
    match t {
        PrimitiveType::I8 => seq!['i', '8'],
        PrimitiveType::U8 => seq!['u', '8'],
        PrimitiveType::I16 => seq!['i', '1', '6'],
        PrimitiveType::U16 => seq!['u', '1', '6'],
        PrimitiveType::I32 => seq!['i', '3', '2'],
        PrimitiveType::U32 => seq!['u', '3', '2'],
        PrimitiveType::I64 => seq!['i', '6', '4'],
        PrimitiveType::U64 => seq!['u', '6', '4'],
        PrimitiveType::Integer => seq!['i', 'n', 't', 'e', 'g', 'e', 'r'],
        PrimitiveType::Bool => seq!['b', 'o', 'o', 'l'],
    }
}

/// The primitive type that source text may name with `w`, if any. The
/// literal-integer type `integer` cannot be written in source.
#[verifier::opaque]
pub open spec fn type_of(w: Seq<char>) -> Option<PrimitiveType> {
    if w == type_str(PrimitiveType::I8) {
        Some(PrimitiveType::I8)
    } else if w == type_str(PrimitiveType::U8) {
        Some(PrimitiveType::U8)
    } else if w == type_str(PrimitiveType::I16) {
        Some(PrimitiveType::I16)
    } else if w == type_str(PrimitiveType::U16) {
        Some(PrimitiveType::U16)
    } else if w == type_str(PrimitiveType::I32) {
        Some(PrimitiveType::I32)
    } else if w == type_str(PrimitiveType::U32) {
        Some(PrimitiveType::U32)
    } else if w == type_str(PrimitiveType::I64) {
        Some(PrimitiveType::I64)
    } else if w == type_str(PrimitiveType::U64) {
        Some(PrimitiveType::U64)
    } else if w == type_str(PrimitiveType::Bool) {
        Some(PrimitiveType::Bool)
    } else {
        None
    }
}

/// Whether `t` is an integer type (the literal-integer type included).
pub open spec fn is_integer_type(t: PrimitiveType) -> bool {
    t != PrimitiveType::Bool
}

/// The type that a value of type `b` takes where type `a` is asked for, if
/// the two are compatible: the literal-integer type adapts to any integer
/// type, and otherwise the types must agree.
pub open spec fn prim_cast(a: PrimitiveType, b: PrimitiveType) -> Option<PrimitiveType> {
    if a == PrimitiveType::Integer && b == PrimitiveType::Integer {
        Some(PrimitiveType::Integer)
    } else if a == PrimitiveType::Integer && is_integer_type(b) {
        Some(b)
    } else if is_integer_type(a) && b == PrimitiveType::Integer {
        Some(a)
    } else if a == b {
        Some(a)
    } else {
        None
    }
}

impl PrimitiveType {
    fn as_str(&self) -> (r: &'static str)
        ensures
            r@ == type_str(*self),
    {
        match self {
            PrimitiveType::I8 => {
                proof {
                    reveal_strlit("i8");
                }
                "i8"
            },
            PrimitiveType::U8 => {
                proof {
                    reveal_strlit("u8");
                }
                "u8"
            },
            PrimitiveType::I16 => {
                proof {
                    reveal_strlit("i16");
                }
                "i16"
            },
            PrimitiveType::U16 => {
                proof {
                    reveal_strlit("u16");
                }
                "u16"
            },
            PrimitiveType::I32 => {
                proof {
                    reveal_strlit("i32");
                }
                "i32"
            },
            PrimitiveType::U32 => {
                proof {
                    reveal_strlit("u32");
                }
                "u32"
            },
            PrimitiveType::I64 => {
                proof {
                    reveal_strlit("i64");
                }
                "i64"
            },
            PrimitiveType::U64 => {
                proof {
                    reveal_strlit("u64");
                }
                "u64"
            },
            PrimitiveType::Integer => {
                proof {
                    reveal_strlit("integer");
                }
                "integer"
            },
            PrimitiveType::Bool => {
                proof {
                    reveal_strlit("bool");
                }
                "bool"
            },
        }
    }

    fn is_integer(&self) -> (r: bool)
        ensures
            r == is_integer_type(*self),
    {
        match self {
            PrimitiveType::I8 => true,
            PrimitiveType::U8 => true,
            PrimitiveType::I16 => true,
            PrimitiveType::U16 => true,
            PrimitiveType::I32 => true,
            PrimitiveType::U32 => true,
            PrimitiveType::I64 => true,
            PrimitiveType::U64 => true,
            PrimitiveType::Integer => true,
            _ => false,
        }
    }

    pub fn try_cast(&self, other: &Self) -> (r: Option<Self>)
        ensures
            r == prim_cast(*self, *other),
    {
        if *self == PrimitiveType::Integer && *other == PrimitiveType::Integer {
            Some(PrimitiveType::Integer)
        } else if *self == PrimitiveType::Integer && other.is_integer() {
            Some(*other)
        } else if self.is_integer() && *other == PrimitiveType::Integer {
            Some(*self)
        } else if *self == *other {
            Some(*self)
        } else {
            None
        }
    }

    /// The primitive type spelled `s`; an error where `s` names none.
    pub fn from_word(s: &str) -> (r: Result<PrimitiveType, PrimitiveTypeError>)
        ensures
            match type_of(s@) {
                Some(t) => r == Ok::<PrimitiveType, PrimitiveTypeError>(t),
                None => r is Err,
            },
    {
        let all = [
            PrimitiveType::I8,
            PrimitiveType::U8,
            PrimitiveType::I16,
            PrimitiveType::U16,
            PrimitiveType::I32,
            PrimitiveType::U32,
            PrimitiveType::I64,
            PrimitiveType::U64,
            PrimitiveType::Bool,
        ];
        let mut i: usize = 0;
        while i < 9
            invariant
                0 <= i <= 9,
                all@ == seq![
                    PrimitiveType::I8,
                    PrimitiveType::U8,
                    PrimitiveType::I16,
                    PrimitiveType::U16,
                    PrimitiveType::I32,
                    PrimitiveType::U32,
                    PrimitiveType::I64,
                    PrimitiveType::U64,
                    PrimitiveType::Bool,
                ],
                forall|k: int| 0 <= k < i ==> type_str(all@[k]) != s@,
            decreases 9 - i,
        {
            proof {
                reveal(type_of);
            }
            let t = all[i];
            if str_eq(t.as_str(), s) {
                return Ok(t);
            }
            i = i + 1;
        }
        proof {
            reveal(type_of);
            assert(type_str(all@[0]) != s@);
            assert(type_str(all@[1]) != s@);
            assert(type_str(all@[2]) != s@);
            assert(type_str(all@[3]) != s@);
            assert(type_str(all@[4]) != s@);
            assert(type_str(all@[5]) != s@);
            assert(type_str(all@[6]) != s@);
            assert(type_str(all@[7]) != s@);
            assert(type_str(all@[8]) != s@);
        }
        Err(PrimitiveTypeError {  })
    }
}

pub struct PrimitiveTypeError {}

impl std::str::FromStr for PrimitiveType {
    type Err = PrimitiveTypeError;

    /// The primitive type that source text names with `s`; an error where
    /// `s` names none.
    fn from_str(s: &str) -> (r: Result<Self, Self::Err>)
        ensures
            match type_of(s@) {
                Some(t) => r == Ok::<PrimitiveType, PrimitiveTypeError>(t),
                None => r is Err,
            },
    {
        PrimitiveType::from_word(s)
    }
}

#[derive(PartialEq, Eq, Structural, Debug, Clone, Copy)]
pub enum LexError {
    UnsupportedToken,
    UnknownKeyword,
    ParseNumberError,
}

/// The message that describes each lexing error.
pub open spec fn lex_error_message(e: LexError) -> Seq<char> {
    match e {
        LexError::UnsupportedToken => "Unsupported token"@,
        LexError::UnknownKeyword => "Unknown keyword"@,
        LexError::ParseNumberError => "Failed to parse number"@,
    }
}

impl LexError {
    /// The human-readable description of the error.
    pub fn message(&self) -> (r: String)
        ensures
            r@ == lex_error_message(*self),
    {
        match self {
            LexError::UnsupportedToken => "Unsupported token".to_owned(),
            LexError::UnknownKeyword => "Unknown keyword".to_owned(),
            LexError::ParseNumberError => "Failed to parse number".to_owned(),
        }
    }
}

/* The scanning rules, stated over the characters of the source. */

/// The first index at or after `p` that does not hold ASCII whitespace.
pub open spec fn skip_ws(s: Seq<char>, p: int) -> int
    decreases s.len() - p,
{
    if 0 <= p < s.len() && is_ascii_ws(s[p]) {
        skip_ws(s, p + 1)
    } else {
        p
    }
}

/// The end of the run of numeric characters that starts at `p`.
pub open spec fn numeric_end(s: Seq<char>, p: int) -> int
    decreases s.len() - p,
{
    if 0 <= p < s.len() && numeric(s[p]) {
        numeric_end(s, p + 1)
    } else {
        p
    }
}

/// Whether `c` may continue an identifier.
pub open spec fn is_ident_char(c: char) -> bool {
    alphanumeric(c) || c == '_'
}

/// The end of the run of identifier characters that starts at `p`.
pub open spec fn ident_end(s: Seq<char>, p: int) -> int
    decreases s.len() - p,
{
    if 0 <= p < s.len() && is_ident_char(s[p]) {
        ident_end(s, p + 1)
    } else {
        p
    }
}

/// The decimal value of a sequence of digits.
pub open spec fn digits_value(d: Seq<char>) -> int
    decreases d.len(),
{
    if d.len() == 0 {
        0
    } else {
        digits_value(d.drop_last()) * 10 + digit_value(d.last())
    }
}

/// The value of a decimal numeral that fits in a `u64`, if `d` is one.
pub open spec fn decimal_u64(d: Seq<char>) -> Option<u64> {
    if (forall|k: int| 0 <= k < d.len() ==> is_ascii_digit(#[trigger] d[k])) && digits_value(d)
        <= u64::MAX {
        Some(digits_value(d) as u64)
    } else {
        None
    }
}

/// The token that a word (a maximal run of identifier characters) stands for.
pub open spec fn word_kind(w: Seq<char>) -> TokenKindV {
    match keyword_of(w) {
        Some(k) => TokenKindV::Keyword(k),
        None => match type_of(w) {
            Some(t) => TokenKindV::Type(t),
            None => TokenKindV::Identifier(w),
        },
    }
}

/// The outcome of scanning one token: a token kind with the character range
/// it covers, or an error with the index where scanning stopped.
pub enum Scan {
    Tok(TokenKindV, int, int),
    Fail(LexError, int),
}

/// A token made of one character, or of two where `second` follows.
pub open spec fn one_or_two(
    s: Seq<char>,
    i: int,
    second: char,
    two: TokenKindV,
    one: TokenKindV,
) -> Scan {
    if i + 1 < s.len() && s[i + 1] == second {
        Scan::Tok(two, i, i + 2)
    } else {
        Scan::Tok(one, i, i + 1)
    }
}

/// The token that starts at the first non-whitespace character at or after `p`.
#[verifier::opaque]
pub open spec fn scan(s: Seq<char>, p: int) -> Scan {
    let i = skip_ws(s, p);
    if i >= s.len() {
        Scan::Tok(TokenKindV::EOF, i, i)
    } else {
        let c = s[i];
        if c == '(' {
            Scan::Tok(TokenKindV::LParen, i, i + 1)
        } else if c == ')' {
            Scan::Tok(TokenKindV::RParen, i, i + 1)
        } else if c == '{' {
            Scan::Tok(TokenKindV::LBrace, i, i + 1)
        } else if c == '}' {
            Scan::Tok(TokenKindV::RBrace, i, i + 1)
        } else if c == ',' {
            Scan::Tok(TokenKindV::Comma, i, i + 1)
        } else if c == '.' {
            Scan::Tok(TokenKindV::Dot, i, i + 1)
        } else if c == ':' {
            Scan::Tok(TokenKindV::Colon, i, i + 1)
        } else if c == ';' {
            Scan::Tok(TokenKindV::Semicolon, i, i + 1)
        } else if c == '&' {
            one_or_two(s, i, '&', TokenKindV::DoubleAmpersand, TokenKindV::Ampersand)
        } else if c == '|' {
            one_or_two(s, i, '|', TokenKindV::DoubleVbar, TokenKindV::VBar)
        } else if c == '+' {
            Scan::Tok(TokenKindV::Plus, i, i + 1)
        } else if c == '*' {
            Scan::Tok(TokenKindV::Asterisk, i, i + 1)
        } else if c == '/' {
            Scan::Tok(TokenKindV::Slash, i, i + 1)
        } else if c == '%' {
            Scan::Tok(TokenKindV::Percent, i, i + 1)
        } else if c == '=' {
            one_or_two(s, i, '=', TokenKindV::DoubleEqual, TokenKindV::Equal)
        } else if c == '<' {
            one_or_two(s, i, '=', TokenKindV::LE, TokenKindV::LT)
        } else if c == '>' {
            one_or_two(s, i, '=', TokenKindV::GE, TokenKindV::GT)
        } else if c == '!' {
            one_or_two(s, i, '=', TokenKindV::NE, TokenKindV::Exclamation)
        } else if c == '-' {
            one_or_two(s, i, '>', TokenKindV::Arrow, TokenKindV::Minus)
        } else if c == '0' {
            // a leading zero may not be followed by the digits 0 to 8
            if i + 1 < s.len() && '0' <= s[i + 1] <= '8' {
                Scan::Fail(LexError::ParseNumberError, i + 1)
            } else {
                Scan::Tok(TokenKindV::Number(0), i, i + 1)
            }
        } else if '1' <= c <= '9' {
            let j = numeric_end(s, i + 1);
            match decimal_u64(s.subrange(i, j)) {
                Some(v) => Scan::Tok(TokenKindV::Number(v), i, j),
                None => Scan::Fail(LexError::ParseNumberError, j),
            }
        } else if is_ident_start(c) {
            let j = ident_end(s, i + 1);
            Scan::Tok(word_kind(s.subrange(i, j)), i, j)
        } else {
            Scan::Fail(LexError::UnsupportedToken, i + 1)
        }
    }
}

/// The token that covers the characters `[i, j)`; the end of input carries
/// the span `(0, 0)`.
pub open spec fn token_at(s: Seq<char>, k: TokenKindV, i: int, j: int) -> TokenV {
    if k is EOF {
        (k, Span(0, 0))
    } else {
        (k, Span(byte_pos(s, i) as usize, byte_pos(s, j) as usize))
    }
}

/// Prefixes `prefix` to the tokens of a lexing outcome.
pub open spec fn prepend_tokens(prefix: Seq<TokenV>, r: (Result<Seq<TokenV>, LexError>, int)) -> (
    Result<Seq<TokenV>, LexError>,
    int,
) {
    match r.0 {
        Ok(ts) => (Ok(prefix + ts), r.1),
        Err(e) => (Err(e), r.1),
    }
}

/// The tokens of `s` from the character index `p` up to and including the
/// end of input, or the first error; with the index where lexing stopped.
pub open spec fn lex_from(s: Seq<char>, p: int) -> (Result<Seq<TokenV>, LexError>, int)
    decreases s.len() - p,
    when 0 <= p <= s.len()
{
    match scan(s, p) {
        Scan::Fail(e, q) => (Err(e), q),
        Scan::Tok(k, i, j) => {
            if k is EOF {
                (Ok(seq![token_at(s, k, i, j)]), j)
            } else {
                proof {
                    lemma_scan_progress(s, p);
                }
                prepend_tokens(seq![token_at(s, k, i, j)], lex_from(s, j))
            }
        },
    }
}

/// The views of a sequence of tokens.
pub open spec fn tokens_view<'src>(v: Seq<Token<'src>>) -> Seq<TokenV> {
    v.map_values(|t: Token<'src>| t@)
}

/* Facts about the scanning rules. */

pub proof fn lemma_skip_ws(s: Seq<char>, p: int)
    requires
        0 <= p <= s.len(),
    ensures
        p <= skip_ws(s, p) <= s.len(),
        forall|k: int| p <= k < skip_ws(s, p) ==> is_ascii_ws(#[trigger] s[k]),
        skip_ws(s, p) < s.len() ==> !is_ascii_ws(s[skip_ws(s, p)]),
    decreases s.len() - p,
{
    if p < s.len() && is_ascii_ws(s[p]) {
        lemma_skip_ws(s, p + 1);
    }
}

pub proof fn lemma_numeric_end(s: Seq<char>, p: int)
    requires
        0 <= p <= s.len(),
    ensures
        p <= numeric_end(s, p) <= s.len(),
        forall|k: int| p <= k < numeric_end(s, p) ==> numeric(#[trigger] s[k]),
        numeric_end(s, p) < s.len() ==> !numeric(s[numeric_end(s, p)]),
    decreases s.len() - p,
{
    if p < s.len() && numeric(s[p]) {
        lemma_numeric_end(s, p + 1);
    }
}

pub proof fn lemma_ident_end(s: Seq<char>, p: int)
    requires
        0 <= p <= s.len(),
    ensures
        p <= ident_end(s, p) <= s.len(),
        forall|k: int| p <= k < ident_end(s, p) ==> is_ident_char(#[trigger] s[k]),
        ident_end(s, p) < s.len() ==> !is_ident_char(s[ident_end(s, p)]),
    decreases s.len() - p,
{
    if p < s.len() && is_ident_char(s[p]) {
        lemma_ident_end(s, p + 1);
    }
}

/// Scanning moves forward: a token other than the end of input covers at
/// least one character, and an error stops after the starting index.
pub proof fn lemma_scan_progress(s: Seq<char>, p: int)
    requires
        0 <= p <= s.len(),
    ensures
        match scan(s, p) {
            Scan::Tok(k, i, j) => p <= i <= j <= s.len() && (k is EOF <==> i == j) && (k is EOF
                ==> i == s.len()),
            Scan::Fail(e, q) => p < q <= s.len(),
        },
{
    reveal(scan);
    lemma_skip_ws(s, p);
    let i = skip_ws(s, p);
    if i < s.len() {
        lemma_numeric_end(s, i + 1);
        lemma_ident_end(s, i + 1);
        let c = s[i];
        if is_ident_start(c) {
            let j = ident_end(s, i + 1);
            let w = s.subrange(i, j);
            assert(w.len() >= 1);
            assert(keyword_of(w) is None ==> type_of(w) is None ==> word_kind(w) is Identifier);
        }
    }
}

/// A value of a numeral is at least the value of any of its prefixes.
pub proof fn lemma_digits_prefix(d: Seq<char>, m: int)
    requires
        0 <= m <= d.len(),
        forall|k: int| 0 <= k < d.len() ==> is_ascii_digit(#[trigger] d[k]),
    ensures
        0 <= digits_value(d.take(m)) <= digits_value(d),
    decreases d.len(),
{
    if m == d.len() {
        assert(d.take(m) =~= d);
        if d.len() > 0 {
            lemma_digits_prefix(d.drop_last(), 0);
        }
    } else {
        let e = d.drop_last();
        lemma_digits_prefix(e, m);
        assert(e.take(m) =~= d.take(m));
    }
}

/// The value of the digits `chars[i..j]` as a `u64`, if they form a decimal
/// numeral that fits.
pub(crate) fn parse_decimal(chars: &Vec<char>, i: usize, j: usize) -> (r: Option<u64>)
    requires
        i <= j <= chars@.len(),
    ensures
        r == decimal_u64(chars@.subrange(i as int, j as int)),
{
    let ghost d = chars@.subrange(i as int, j as int);
    let mut v: u64 = 0;
    let mut k: usize = i;
    proof {
        assert(d.take(0) =~= Seq::<char>::empty());
    }
    while k < j
        invariant
            i <= k <= j <= chars@.len(),
            d == chars@.subrange(i as int, j as int),
            forall|m: int| 0 <= m < k - i ==> is_ascii_digit(#[trigger] d[m]),
            v == digits_value(d.take(k - i)),
        decreases j - k,
    {
        let c = chars[k];
        proof {
            assert(d[k - i] == c);
        }
        if !('0' <= c && c <= '9') {
            return None;
        }
        let dv = ((c as u32) - ('0' as u32)) as u64;
        proof {
            assert(d.take(k - i + 1).drop_last() =~= d.take(k - i));
            assert(d.take(k - i + 1).last() == c);
        }
        match v.checked_mul(10) {
            None => {
                proof {
                    if forall|m: int| 0 <= m < d.len() ==> is_ascii_digit(#[trigger] d[m]) {
                        lemma_digits_prefix(d, k - i + 1);
                    }
                }
                return None;
            },
            Some(m) => match m.checked_add(dv) {
                None => {
                    proof {
                        if forall|m: int| 0 <= m < d.len() ==> is_ascii_digit(#[trigger] d[m]) {
                            lemma_digits_prefix(d, k - i + 1);
                        }
                    }
                    return None;
                },
                Some(x) => {
                    v = x;
                },
            },
        }
        k = k + 1;
    }
    proof {
        assert(d.take(k - i) =~= d);
    }
    Some(v)
}

/// Whether `r` is the outcome of scanning `s` from `p`, with `q` the index
/// where the lexer stands afterwards.
pub open spec fn scanned<'src>(s: Seq<char>, p: int, r: Result<Token<'src>, LexError>, q: int) -> bool {
    match scan(s, p) {
        Scan::Tok(k, i, j) => r matches Ok(t) && t@ == token_at(s, k, i, j) && q == j,
        Scan::Fail(e, j) => r == Err::<Token<'src>, LexError>(e) && q == j,
    }
}

/// Whether `r` is the outcome `(tokens, stop)` of lexing, with `q` the index
/// where the lexer stands afterwards.
pub open spec fn lexed<'src>(
    out: (Result<Seq<TokenV>, LexError>, int),
    r: Result<VecDeque<Token<'src>>, LexError>,
    q: int,
) -> bool {
    &&& q == out.1
    &&& match out.0 {
        Ok(ts) => r matches Ok(v) && tokens_view(v@) == ts,
        Err(e) => r == Err::<VecDeque<Token<'src>>, LexError>(e),
    }
}

/// A lexer over a string slice.
pub struct StringLexer<'src> {
    source: &'src str,
    chars: Vec<char>,
    cursor: (usize, usize),
}

impl<'src> StringLexer<'src> {
    #[verifier::type_invariant]
    spec fn well_formed(self) -> bool {
        &&& self.chars@ == self.source@
        &&& self.cursor.0 <= self.chars@.len()
        &&& self.cursor.1 == byte_pos(self.chars@, self.cursor.0 as int)
        &&& byte_len(self.chars@) <= usize::MAX
    }

    /// The characters of the input.
    pub closed spec fn text(&self) -> Seq<char> {
        self.chars@
    }

    /// The index of the next character to be read.
    pub closed spec fn position(&self) -> int {
        self.cursor.0 as int
    }

    pub fn new(input: &'src str) -> (r: Self)
        ensures
            r.text() == input@,
            r.position() == 0,
    {
        let chars = chars_of(input);
        let total = str_byte_len(input);
        proof {
            assert(chars@.take(0) =~= Seq::<char>::empty());
            assert(byte_pos(chars@, 0) == 0) by {
                reveal_with_fuel(vstd::utf8::encode_utf8, 1);
            }
        }
        StringLexer { source: input, chars, cursor: (0, 0) }
    }

    fn advance(&mut self, j: usize, off: usize)
        requires
            j <= old(self).chars@.len(),
            off == byte_pos(old(self).chars@, j as int),
        ensures
            final(self).chars@ == old(self).chars@,
            final(self).cursor == (j, off),
    {
        proof {
            use_type_invariant(&*self);
        }
        self.cursor = (j, off);
    }


    /// Reads the numeral that starts at `i`, whose first digit is 1 to 9.
    fn lex_number(&mut self, i: usize, off: usize) -> (r: Result<Token<'src>, LexError>)
        requires
            i < old(self).chars@.len(),
            '1' <= old(self).chars@[i as int] <= '9',
            off == byte_pos(old(self).chars@, i as int),
        ensures
            final(self).chars@ == old(self).chars@,
            ({
                let s = old(self).chars@;
                let j = numeric_end(s, i + 1);
                &&& final(self).cursor.0 == j
                &&& match decimal_u64(s.subrange(i as int, j)) {
                    Some(v) => r matches Ok(t) && t@ == (TokenKindV::Number(v), Span(
                        off,
                        byte_pos(s, j) as usize,
                    )),
                    None => r == Err::<Token<'src>, LexError>(LexError::ParseNumberError),
                }
            }),
    {
        proof {
            use_type_invariant(&*self);
        }
        let ghost s = self.chars@;
        let n = self.chars.len();
        let c = self.chars[i];
        proof {
            lemma_byte_pos_step(s, i as int);
            lemma_byte_len_ascii(seq![c]);
            lemma_numeric_end(s, i + 1);
            lemma_byte_pos_mono(s, i + 1, n as int);
        }
        let mut j = i + 1;
        let mut offj = off + 1;
        while j < n && is_numeric(self.chars[j])
            invariant
                s == self.chars@,
                n == s.len(),
                i + 1 <= j <= n,
                numeric_end(s, j as int) == numeric_end(s, i + 1),
                offj == byte_pos(s, j as int),
                byte_len(s) <= usize::MAX,
            decreases n - j,
        {
            proof {
                lemma_byte_pos_step(s, j as int);
                lemma_byte_pos_mono(s, j + 1, n as int);
            }
            offj = offj + len_utf8(self.chars[j]);
            j = j + 1;
        }
        let value = parse_decimal(&self.chars, i, j);
        self.advance(j, offj);
        match value {
            Some(v) => Ok(Token(TokenKind::Number(v), Span(off, offj))),
            None => Err(LexError::ParseNumberError),
        }
    }

    /// The end of the identifier that starts at `i`, as a character
    /// position and as a byte offset.
    fn scan_ident_rest(&self, i: usize, off: usize) -> (r: (usize, usize))
        requires
            i < self.chars@.len(),
            is_ident_start(self.chars@[i as int]),
            off == byte_pos(self.chars@, i as int),
        ensures
            r.0 == ident_end(self.chars@, i + 1),
            r.1 == byte_pos(self.chars@, r.0 as int),
            i < r.0 <= self.chars@.len(),
    {
        proof {
            use_type_invariant(self);
        }
        let ghost s = self.chars@;
        let n = self.chars.len();
        let c = self.chars[i];
        proof {
            lemma_byte_pos_step(s, i as int);
            lemma_byte_len_ascii(seq![c]);
            lemma_ident_end(s, i + 1);
            lemma_byte_pos_mono(s, i + 1, n as int);
        }
        let mut j = i + 1;
        let mut offj = off + 1;
        while j < n && (is_alphanumeric(self.chars[j]) || self.chars[j] == '_')
            invariant
                s == self.chars@,
                s == self.source@,
                n == s.len(),
                i + 1 <= j <= n,
                ident_end(s, j as int) == ident_end(s, i + 1),
                offj == byte_pos(s, j as int),
                byte_len(s) <= usize::MAX,
            decreases n - j,
        {
            proof {
                lemma_byte_pos_step(s, j as int);
                lemma_byte_pos_mono(s, j + 1, n as int);
            }
            offj = offj + len_utf8(self.chars[j]);
            j = j + 1;
        }
        (j, offj)
    }

    /// Reads the word that starts at `i`, whose first character may start an
    /// identifier.
    #[verifier::rlimit(100)]
    fn lex_word(&mut self, i: usize, off: usize) -> (r: Token<'src>)
        requires
            i < old(self).chars@.len(),
            is_ident_start(old(self).chars@[i as int]),
            off == byte_pos(old(self).chars@, i as int),
        ensures
            final(self).chars@ == old(self).chars@,
            ({
                let s = old(self).chars@;
                let j = ident_end(s, i + 1);
                &&& final(self).cursor.0 == j
                &&& r@ == (word_kind(s.subrange(i as int, j)), Span(off, byte_pos(s, j) as usize))
            }),
    {
        proof {
            use_type_invariant(&*self);
        }
        let ghost s = self.chars@;
        let (j, offj) = self.scan_ident_rest(i, off);
        let word = slice_chars(self.source, Ghost(i as int), Ghost(j as int), off, offj);
        let kind = match Keyword::from_word(word) {
            Ok(k) => TokenKind::Keyword(k),
            Err(_) => match PrimitiveType::from_word(word) {
                Ok(t) => TokenKind::Type(t),
                Err(_) => TokenKind::Identifier(word),
            },
        };
        self.advance(j, offj);
        Token(kind, Span(off, offj))
    }

    #[verifier::rlimit(100)]
    fn next_token(&mut self) -> (r: Result<Token<'src>, LexError>)
        ensures
            final(self).text() == old(self).text(),
            scanned(old(self).text(), old(self).position(), r, final(self).position()),
    {
        proof {
            use_type_invariant(&*self);
            reveal(scan);
        }
        let ghost s = self.chars@;
        let ghost p = self.cursor.0 as int;
        let n = self.chars.len();
        let mut i = self.cursor.0;
        let mut off = self.cursor.1;
        proof {
            lemma_skip_ws(s, p);
        }
        while i < n && is_ascii_whitespace(self.chars[i])
            invariant
                s == self.chars@,
                n == s.len(),
                p <= i <= n,
                skip_ws(s, i as int) == skip_ws(s, p),
                off == byte_pos(s, i as int),
                byte_len(s) <= usize::MAX,
            decreases n - i,
        {
            proof {
                lemma_byte_pos_step(s, i as int);
                lemma_byte_len_ascii(seq![s[i as int]]);
                lemma_byte_pos_mono(s, i + 1, n as int);
            }
            off = off + 1;
            i = i + 1;
        }
        if i == n {
            self.advance(i, off);
            return Ok(Token(TokenKind::EOF, Span(0, 0)));
        }
        let c = self.chars[i];
        let next: Option<char> = if i + 1 < n {
            Some(self.chars[i + 1])
        } else {
            None
        };
        let simple: Option<(TokenKind<'src>, usize)> = match c {
            '(' => Some((TokenKind::LParen, 1)),
            ')' => Some((TokenKind::RParen, 1)),
            '{' => Some((TokenKind::LBrace, 1)),
            '}' => Some((TokenKind::RBrace, 1)),
            ',' => Some((TokenKind::Comma, 1)),
            '.' => Some((TokenKind::Dot, 1)),
            ':' => Some((TokenKind::Colon, 1)),
            ';' => Some((TokenKind::Semicolon, 1)),
            '&' => if next == Some('&') {
                Some((TokenKind::DoubleAmpersand, 2))
            } else {
                Some((TokenKind::Ampersand, 1))
            },
            '|' => if next == Some('|') {
                Some((TokenKind::DoubleVbar, 2))
            } else {
                Some((TokenKind::VBar, 1))
            },
            '+' => Some((TokenKind::Plus, 1)),
            '*' => Some((TokenKind::Asterisk, 1)),
            '/' => Some((TokenKind::Slash, 1)),
            '%' => Some((TokenKind::Percent, 1)),
            '=' => if next == Some('=') {
                Some((TokenKind::DoubleEqual, 2))
            } else {
                Some((TokenKind::Equal, 1))
            },
            '<' => if next == Some('=') {
                Some((TokenKind::LE, 2))
            } else {
                Some((TokenKind::LT, 1))
            },
            '>' => if next == Some('=') {
                Some((TokenKind::GE, 2))
            } else {
                Some((TokenKind::GT, 1))
            },
            '!' => if next == Some('=') {
                Some((TokenKind::NE, 2))
            } else {
                Some((TokenKind::Exclamation, 1))
            },
            '-' => if next == Some('>') {
                Some((TokenKind::Arrow, 2))
            } else {
                Some((TokenKind::Minus, 1))
            },
            _ => None,
        };
        proof {
            lemma_byte_pos_step(s, i as int);
            lemma_byte_pos_mono(s, i as int, n as int);
        }
        if let Some((kind, w)) = simple {
            proof {
                assert((c as u32) < 0x80);
                lemma_byte_len_ascii(seq![c]);
                if w == 2 {
                    assert((s[i + 1] as u32) < 0x80);
                    lemma_byte_pos_step(s, i + 1);
                    lemma_byte_len_ascii(seq![s[i + 1]]);
                }
                lemma_byte_pos_mono(s, i + w, n as int);
            }
            self.advance(i + w, off + w);
            return Ok(Token(kind, Span(off, off + w)));
        }
        if c == '0' {
            proof {
                lemma_byte_len_ascii(seq![c]);
                lemma_byte_pos_mono(s, i + 1, n as int);
            }
            self.advance(i + 1, off + 1);
            if let Some(d) = next {
                if '0' <= d && d <= '8' {
                    return Err(LexError::ParseNumberError);
                }
            }
            return Ok(Token(TokenKind::Number(0), Span(off, off + 1)));
        }
        if '1' <= c && c <= '9' {
            return self.lex_number(i, off);
        }
        if ('a' <= c && c <= 'z') || ('A' <= c && c <= 'Z') || c == '_' {
            return Ok(self.lex_word(i, off));
        }
        let w = len_utf8(c);
        proof {
            lemma_byte_pos_mono(s, i + 1, n as int);
        }
        self.advance(i + 1, off + w);
        Err(LexError::UnsupportedToken)
    }
}

impl<'src> Lexer<'src> for StringLexer<'src> {
    fn lex(&mut self) -> (r: Result<VecDeque<Token<'src>>, LexError>)
        ensures
            final(self).text() == old(self).text(),
            lexed(lex_from(old(self).text(), old(self).position()), r, final(self).position()),
    {
        let ghost s = self.text();
        let ghost p0 = self.position();
        let mut result: VecDeque<Token<'src>> = VecDeque::new();
        proof {
            use_type_invariant(&*self);
            assert(tokens_view(result@) =~= Seq::<TokenV>::empty());
            assert(prepend_tokens(Seq::<TokenV>::empty(), lex_from(s, p0)) == lex_from(s, p0));
        }
        loop
            invariant
                self.text() == s,
                s == old(self).text(),
                p0 == old(self).position(),
                0 <= self.position() <= s.len(),
                lex_from(s, p0) == prepend_tokens(tokens_view(result@), lex_from(s, self.position())),
            decreases s.len() - self.position(),
        {
            proof {
                use_type_invariant(&*self);
                lemma_scan_progress(s, self.position());
            }
            let ghost before = result@;
            let token = match self.next_token() {
                Ok(t) => t,
                Err(e) => {
                    return Err(e);
                },
            };
            result.push_back(token);
            proof {
                assert(tokens_view(result@) =~= tokens_view(before).push(token@));
                assert(tokens_view(before) + seq![token@] =~= tokens_view(before).push(token@));
            }
            if let TokenKind::EOF = token.0 {
                return Ok(result);
            }
            proof {
                let ts = tokens_view(before);
                let rest = lex_from(s, self.position());
                assert(ts.push(token@) =~= ts + seq![token@]);
                match rest.0 {
                    Ok(more) => {
                        assert(ts + (seq![token@] + more) =~= ts.push(token@) + more);
                    },
                    Err(_) => {},
                }
            }
        }
    }
}

} // verus!
