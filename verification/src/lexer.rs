//! The first lexer of chibi-script: tokens without positions, identifiers as
//! owned strings, and signed numbers, of which a minus sign directly before
//! the digits is part.
use vstd::prelude::*;
use crate::syntax::lexer::{
    decimal_u64, digits_value, ident_end, lemma_ident_end, lemma_numeric_end, lemma_skip_ws, numeric_end,
    parse_decimal, skip_ws,
};
use crate::text::{
    chars_of, is_alphanumeric, is_ascii_digit, is_ascii_whitespace, is_ident_start, is_numeric, push_char,
    str_eq,
};

verus! {

pub trait Lexer<'a> {
    /// The tokens from the current position up to and including the end of
    /// input.
    fn lex(&mut self) -> Result<Vec<Token>, LexError>;
}

#[derive(PartialEq, Debug)]
pub enum Token {
    Number(isize),
    Keyword(Keyword),
    Identifier(String),
    Type(PrimitiveType),
    LParen,
    RParen,
    LBrace,
    RBrace,
    Colon,
    Semicolon,
    VBar,
    Ampersand,
    Plus,
    Minus,
    Asterisk,
    Slash,
    Equal,
    Arrow,
    EOF,
}

#[derive(PartialEq, Eq, Structural, Debug, Clone, Copy)]
pub enum Keyword {
    Fn,
    Let,
}

pub struct KeywordError {}

#[derive(PartialEq, Eq, Structural, Debug, Clone, Copy)]
pub enum PrimitiveType {
    I8,
    U8,
    I16,
    U16,
    I32,
    U32,
    I64,
    U64,
}

pub struct PrimitiveTypeError {}

#[derive(PartialEq, Eq, Structural, Debug, Clone, Copy)]
pub enum LexError {
    UnsupportedToken,
    UnknownKeyword,
    ParseNumberError,
}

/// A token with its identifier as a character sequence.
pub enum TokenV {
    Number(isize),
    Keyword(Keyword),
    Identifier(Seq<char>),
    Type(PrimitiveType),
    LParen,
    RParen,
    LBrace,
    RBrace,
    Colon,
    Semicolon,
    VBar,
    Ampersand,
    Plus,
    Minus,
    Asterisk,
    Slash,
    Equal,
    Arrow,
    EOF,
}

impl View for Token {
    type V = TokenV;

    open spec fn view(&self) -> TokenV {
        match self {
            Token::Number(n) => TokenV::Number(*n),
            Token::Keyword(k) => TokenV::Keyword(*k),
            Token::Identifier(s) => TokenV::Identifier(s@),
            Token::Type(t) => TokenV::Type(*t),
            Token::LParen => TokenV::LParen,
            Token::RParen => TokenV::RParen,
            Token::LBrace => TokenV::LBrace,
            Token::RBrace => TokenV::RBrace,
            Token::Colon => TokenV::Colon,
            Token::Semicolon => TokenV::Semicolon,
            Token::VBar => TokenV::VBar,
            Token::Ampersand => TokenV::Ampersand,
            Token::Plus => TokenV::Plus,
            Token::Minus => TokenV::Minus,
            Token::Asterisk => TokenV::Asterisk,
            Token::Slash => TokenV::Slash,
            Token::Equal => TokenV::Equal,
            Token::Arrow => TokenV::Arrow,
            Token::EOF => TokenV::EOF,
        }
    }
}

pub open spec fn tokens_view(v: Seq<Token>) -> Seq<TokenV> {
    v.map_values(|t: Token| t@)
}

/// The spelling of each keyword.
pub open spec fn keyword_str(k: Keyword) -> Seq<char> {
    match k {
        Keyword::Fn => seq!['f', 'n'],
        Keyword::Let => seq!['l', 'e', 't'],
    }
}

/// The keyword spelled `w`, if any.
pub open spec fn keyword_of(w: Seq<char>) -> Option<Keyword> {
    if w == keyword_str(Keyword::Fn) {
        Some(Keyword::Fn)
    } else if w == keyword_str(Keyword::Let) {
        Some(Keyword::Let)
    } else {
        None
    }
}

/// The spelling of each primitive type as this lexer knows it: `I8` and
/// `U8` are spelled `u8` and `i8`.
pub open spec fn type_str(t: PrimitiveType) -> Seq<char> {
    match t {
        PrimitiveType::I8 => seq!['u', '8'],
        PrimitiveType::U8 => seq!['i', '8'],
        PrimitiveType::I16 => seq!['i', '1', '6'],
        PrimitiveType::U16 => seq!['u', '1', '6'],
        PrimitiveType::I32 => seq!['i', '3', '2'],
        PrimitiveType::U32 => seq!['u', '3', '2'],
        PrimitiveType::I64 => seq!['i', '6', '4'],
        PrimitiveType::U64 => seq!['u', '6', '4'],
    }
}

/// The first primitive type, in declaration order, spelled `w`.
pub open spec fn type_of(w: Seq<char>) -> Option<PrimitiveType> {
    if w == type_str(PrimitiveType::I8) {
        Some(PrimitiveType::I8)
    } else if w == type_str(PrimitiveType::U8) {
        Some(PrimitiveType::U8)
    } else if w == type_str(PrimitiveType::I16) {
        Some(PrimitiveType::I16)
    } else if w == type_str(PrimitiveType::U16) {
        Some(PrimitiveType::U16)
    } else if w == type_str(PrimitiveType::I32) {
        Some(PrimitiveType::I32)
    } else if w == type_str(PrimitiveType::U32) {
        Some(PrimitiveType::U32)
    } else if w == type_str(PrimitiveType::I64) {
        Some(PrimitiveType::I64)
    } else if w == type_str(PrimitiveType::U64) {
        Some(PrimitiveType::U64)
    } else {
        None
    }
}

/// The token that a word stands for: a keyword, a type, or an identifier.
pub open spec fn word_token(w: Seq<char>) -> TokenV {
    match keyword_of(w) {
        Some(k) => TokenV::Keyword(k),
        None => match type_of(w) {
            Some(t) => TokenV::Type(t),
            None => TokenV::Identifier(w),
        },
    }
}

/// The number that the digits `d`, negated if `neg`, stand for, if all are
/// ASCII digits and the number fits in an `isize`.
pub open spec fn number_value(d: Seq<char>, neg: bool) -> Option<isize> {
    let v = digits_value(d);
    if (forall|k: int| 0 <= k < d.len() ==> is_ascii_digit(#[trigger] d[k])) && (if neg {
        v <= isize::MAX + 1
    } else {
        v <= isize::MAX
    }) {
        Some((if neg { -v } else { v }) as isize)
    } else {
        None
    }
}

/// A token read and the position after it, or an error and where reading
/// stopped.
pub enum LScan {
    Tok(TokenV, int),
    Fail(LexError, int),
}

/// The token that a single character stands for, if it stands for one alone.
pub open spec fn single_token(c: char) -> Option<TokenV> {
    match c {
        '(' => Some(TokenV::LParen),
        ')' => Some(TokenV::RParen),
        '{' => Some(TokenV::LBrace),
        '}' => Some(TokenV::RBrace),
        ':' => Some(TokenV::Colon),
        ';' => Some(TokenV::Semicolon),
        '&' => Some(TokenV::Ampersand),
        '|' => Some(TokenV::VBar),
        '+' => Some(TokenV::Plus),
        '*' => Some(TokenV::Asterisk),
        '/' => Some(TokenV::Slash),
        '=' => Some(TokenV::Equal),
        _ => None,
    }
}

/// Whether a zero is followed by a digit from 0 to 8 at `q`, which makes
/// the number malformed.
pub open spec fn zero_followed(s: Seq<char>, q: int) -> bool {
    0 <= q < s.len() && '0' <= s[q] && s[q] < '9'
}

/// The token read from position `p`, after whitespace. A minus sign always
/// takes the character after it, if any: it becomes part of an arrow or a
/// number, or is dropped.
pub open spec fn scan(s: Seq<char>, p: int) -> LScan {
    let i = skip_ws(s, p);
    if i < 0 || i >= s.len() {
        LScan::Tok(TokenV::EOF, i)
    } else {
        let c = s[i];
        let q = i + 1;
        match single_token(c) {
            Some(t) => LScan::Tok(t, q),
            None => if c == '-' {
                if q >= s.len() {
                    LScan::Tok(TokenV::Minus, q)
                } else {
                    let d = s[q];
                    if d == '>' {
                        LScan::Tok(TokenV::Arrow, q + 1)
                    } else if d == '0' {
                        if zero_followed(s, q + 1) {
                            LScan::Fail(LexError::ParseNumberError, q + 1)
                        } else {
                            LScan::Tok(TokenV::Number(0), q + 1)
                        }
                    } else if '1' <= d <= '9' {
                        let e = numeric_end(s, q + 1);
                        match number_value(s.subrange(q, e), true) {
                            Some(v) => LScan::Tok(TokenV::Number(v), e),
                            None => LScan::Fail(LexError::ParseNumberError, e),
                        }
                    } else {
                        LScan::Tok(TokenV::Minus, q + 1)
                    }
                }
            } else if c == '0' {
                if zero_followed(s, q) {
                    LScan::Fail(LexError::ParseNumberError, q)
                } else {
                    LScan::Tok(TokenV::Number(0), q)
                }
            } else if '1' <= c <= '9' {
                let e = numeric_end(s, q);
                match number_value(s.subrange(i, e), false) {
                    Some(v) => LScan::Tok(TokenV::Number(v), e),
                    None => LScan::Fail(LexError::ParseNumberError, e),
                }
            } else if is_ident_start(c) {
                let e = ident_end(s, q);
                LScan::Tok(word_token(s.subrange(i, e)), e)
            } else {
                LScan::Fail(LexError::UnsupportedToken, q)
            },
        }
    }
}

/// The tokens read from position `p` up to and including the end of input,
/// or the first error.
pub open spec fn lex_from(s: Seq<char>, p: int) -> Result<Seq<TokenV>, LexError>
    decreases s.len() - p,
{
    if p < 0 || p > s.len() {
        Err(LexError::UnsupportedToken)
    } else {
        match scan(s, p) {
            LScan::Fail(e, _) => Err(e),
            LScan::Tok(t, q) => if t is EOF {
                Ok(seq![TokenV::EOF])
            } else if p < q <= s.len() {
                match lex_from(s, q) {
                    Ok(ts) => Ok(seq![t] + ts),
                    Err(e) => Err(e),
                }
            } else {
                Err(LexError::UnsupportedToken)
            },
        }
    }
}

/// A sequence of ASCII digits has a value of at least zero.
proof fn lemma_digits_nonneg(d: Seq<char>)
    requires
        forall|k: int| 0 <= k < d.len() ==> is_ascii_digit(#[trigger] d[k]),
    ensures
        digits_value(d) >= 0,
    decreases d.len(),
{
    if d.len() > 0 {
        assert forall|k: int| 0 <= k < d.drop_last().len() implies is_ascii_digit(#[trigger] d.drop_last()[k]) by {
            assert(d.drop_last()[k] == d[k]);
        }
        lemma_digits_nonneg(d.drop_last());
        assert(is_ascii_digit(d[d.len() - 1]));
    }
}

/// A token other than the end of input is read from at least one
/// character, and reading stops within the input.
pub proof fn lemma_scan_progress(s: Seq<char>, p: int)
    requires
        0 <= p <= s.len(),
    ensures
        scan(s, p) matches LScan::Tok(t, q) ==> (t is EOF || p < q <= s.len()),
{
    lemma_skip_ws(s, p);
    let i = skip_ws(s, p);
    if i < s.len() {
        lemma_numeric_end(s, i + 1);
        lemma_ident_end(s, i + 1);
        if i + 2 <= s.len() {
            lemma_numeric_end(s, i + 2);
        }
    }
}

/// The lexer over the characters of a string.
pub struct StringLexer {
    chars: Vec<char>,
    pos: usize,
}

impl StringLexer {
    /// The characters of the input.
    pub closed spec fn text(&self) -> Seq<char> {
        self.chars@
    }

    /// The index of the next character to be read.
    pub closed spec fn position(&self) -> int {
        self.pos as int
    }

    pub closed spec fn well_formed(&self) -> bool {
        self.pos <= self.chars@.len()
    }

    pub fn new(input: &str) -> (r: Self)
        ensures
            r.text() == input@,
            r.position() == 0,
            r.well_formed(),
    {
        StringLexer { chars: chars_of(input), pos: 0 }
    }
}

impl Keyword {
    fn as_str(&self) -> (r: &'static str)
        ensures
            r@ == keyword_str(*self),
    {
        match self {
            Keyword::Fn => {
                proof {
                    reveal_strlit("fn");
                }
                "fn"
            },
            Keyword::Let => {
                proof {
                    reveal_strlit("let");
                }
                "let"
            },
        }
    }

    /// The keyword spelled `s`.
    pub fn from_word(s: &str) -> (r: Result<Keyword, KeywordError>)
        ensures
            match keyword_of(s@) {
                Some(k) => r matches Ok(x) && x == k,
                None => r is Err,
            },
    {
        if str_eq(Keyword::Fn.as_str(), s) {
            Ok(Keyword::Fn)
        } else if str_eq(Keyword::Let.as_str(), s) {
            Ok(Keyword::Let)
        } else {
            Err(KeywordError {})
        }
    }
}

impl std::str::FromStr for Keyword {
    type Err = KeywordError;

    /// The keyword spelled `s`; an error where `s` spells none.
    fn from_str(s: &str) -> (r: Result<Self, Self::Err>)
        ensures
            match keyword_of(s@) {
                Some(k) => r matches Ok(x) && x == k,
                None => r is Err,
            },
    {
        Keyword::from_word(s)
    }
}

impl PrimitiveType {
    fn as_str(&self) -> (r: &'static str)
        ensures
            r@ == type_str(*self),
    {
        match self {
            PrimitiveType::I8 => {
                proof {
                    reveal_strlit("u8");
                }
                "u8"
            },
            PrimitiveType::U8 => {
                proof {
                    reveal_strlit("i8");
                }
                "i8"
            },
            PrimitiveType::I16 => {
                proof {
                    reveal_strlit("i16");
                }
                "i16"
            },
            PrimitiveType::U16 => {
                proof {
                    reveal_strlit("u16");
                }
                "u16"
            },
            PrimitiveType::I32 => {
                proof {
                    reveal_strlit("i32");
                }
                "i32"
            },
            PrimitiveType::U32 => {
                proof {
                    reveal_strlit("u32");
                }
                "u32"
            },
            PrimitiveType::I64 => {
                proof {
                    reveal_strlit("i64");
                }
                "i64"
            },
            PrimitiveType::U64 => {
                proof {
                    reveal_strlit("u64");
                }
                "u64"
            },
        }
    }

    /// The first primitive type, in declaration order, spelled `s`.
    pub fn from_word(s: &str) -> (r: Result<PrimitiveType, PrimitiveTypeError>)
        ensures
            match type_of(s@) {
                Some(t) => r matches Ok(x) && x == t,
                None => r is Err,
            },
    {
        if str_eq(PrimitiveType::I8.as_str(), s) {
            Ok(PrimitiveType::I8)
        } else if str_eq(PrimitiveType::U8.as_str(), s) {
            Ok(PrimitiveType::U8)
        } else if str_eq(PrimitiveType::I16.as_str(), s) {
            Ok(PrimitiveType::I16)
        } else if str_eq(PrimitiveType::U16.as_str(), s) {
            Ok(PrimitiveType::U16)
        } else if str_eq(PrimitiveType::I32.as_str(), s) {
            Ok(PrimitiveType::I32)
        } else if str_eq(PrimitiveType::U32.as_str(), s) {
            Ok(PrimitiveType::U32)
        } else if str_eq(PrimitiveType::I64.as_str(), s) {
            Ok(PrimitiveType::I64)
        } else if str_eq(PrimitiveType::U64.as_str(), s) {
            Ok(PrimitiveType::U64)
        } else {
            Err(PrimitiveTypeError {})
        }
    }
}

impl std::str::FromStr for PrimitiveType {
    type Err = PrimitiveTypeError;

    /// The first primitive type, in declaration order, spelled `s`; an
    /// error where `s` spells none.
    fn from_str(s: &str) -> (r: Result<Self, Self::Err>)
        ensures
            match type_of(s@) {
                Some(t) => r matches Ok(x) && x == t,
                None => r is Err,
            },
    {
        PrimitiveType::from_word(s)
    }
}

/// The number that the digits between `i` and `j` stand for, negated if
/// `neg`, if they are all digits and it fits.
fn parse_number(chars: &Vec<char>, i: usize, j: usize, neg: bool) -> (r: Option<isize>)
    requires
        i <= j <= chars@.len(),
    ensures
        r == number_value(chars@.subrange(i as int, j as int), neg),
{
    let ghost d = chars@.subrange(i as int, j as int);
    proof {
        if forall|k: int| 0 <= k < d.len() ==> is_ascii_digit(#[trigger] d[k]) {
            lemma_digits_nonneg(d);
        }
    }
    match parse_decimal(chars, i, j) {
        None => None,
        Some(v) => {
            if neg {
                if v as u128 <= isize::MAX as u128 + 1 {
                    Some((-(v as i128)) as isize)
                } else {
                    None
                }
            } else if v as u128 <= isize::MAX as u128 {
                Some(v as isize)
            } else {
                None
            }
        },
    }
}

impl StringLexer {
    /// Whether the character at the position is a digit from 0 to 8.
    fn zero_continues(&self) -> (r: bool)
        ensures
            r == zero_followed(self.chars@, self.pos as int),
    {
        if self.pos < self.chars.len() {
            let d = self.chars[self.pos];
            '0' <= d && '9' > d
        } else {
            false
        }
    }

    /// The end of the run of numeric characters from `k` on.
    fn numeric_run(&self, k: usize) -> (r: usize)
        requires
            k <= self.chars@.len(),
        ensures
            r == numeric_end(self.chars@, k as int),
            k <= r <= self.chars@.len(),
    {
        let mut e = k;
        while e < self.chars.len() && is_numeric(self.chars[e])
            invariant
                k <= e <= self.chars@.len(),
                numeric_end(self.chars@, e as int) == numeric_end(self.chars@, k as int),
            decreases self.chars@.len() - e,
        {
            e += 1;
        }
        e
    }

    /// The word from `i` to the end of its run of identifier characters.
    fn word(&self, i: usize) -> (r: (String, usize))
        requires
            i < self.chars@.len(),
        ensures
            r.1 == ident_end(self.chars@, i + 1),
            r.0@ == self.chars@.subrange(i as int, r.1 as int),
            i < r.1 <= self.chars@.len(),
    {
        let n = self.chars.len();
        let mut w = String::new();
        push_char(&mut w, self.chars[i]);
        let mut e = i + 1;
        assert(e <= n);
        proof {
            assert(w@ =~= self.chars@.subrange(i as int, e as int));
        }
        while e < self.chars.len() && (is_alphanumeric(self.chars[e]) || self.chars[e] == '_')
            invariant
                i < e <= self.chars@.len(),
                ident_end(self.chars@, e as int) == ident_end(self.chars@, i + 1),
                w@ == self.chars@.subrange(i as int, e as int),
            decreases self.chars@.len() - e,
        {
            push_char(&mut w, self.chars[e]);
            e += 1;
            proof {
                assert(w@ =~= self.chars@.subrange(i as int, e as int));
            }
        }
        (w, e)
    }

    fn next_token(&mut self) -> (r: Result<Token, LexError>)
        requires
            old(self).well_formed(),
        ensures
            final(self).well_formed(),
            final(self).text() == old(self).text(),
            match scan(old(self).text(), old(self).position()) {
                LScan::Tok(t, q) => r matches Ok(x) && x@ == t && final(self).position() == q,
                LScan::Fail(e, _) => r == Err::<Token, LexError>(e),
            },
    {
        let ghost s = self.chars@;
        let ghost p = self.pos as int;
        let n = self.chars.len();
        while self.pos < n && is_ascii_whitespace(self.chars[self.pos])
            invariant
                self.chars@ == s,
                n == s.len(),
                p <= self.pos <= n,
                skip_ws(s, p) == skip_ws(s, self.pos as int),
            decreases n - self.pos,
        {
            self.pos += 1;
        }
        let i = self.pos;
        if i >= n {
            return Ok(Token::EOF);
        }
        let c = self.chars[i];
        self.pos = i + 1;
        let single = match c {
            '(' => Some(Token::LParen),
            ')' => Some(Token::RParen),
            '{' => Some(Token::LBrace),
            '}' => Some(Token::RBrace),
            ':' => Some(Token::Colon),
            ';' => Some(Token::Semicolon),
            '&' => Some(Token::Ampersand),
            '|' => Some(Token::VBar),
            '+' => Some(Token::Plus),
            '*' => Some(Token::Asterisk),
            '/' => Some(Token::Slash),
            '=' => Some(Token::Equal),
            _ => None,
        };
        if let Some(t) = single {
            return Ok(t);
        }
        if c == '-' {
            if self.pos >= n {
                return Ok(Token::Minus);
            }
            let d = self.chars[self.pos];
            self.pos = self.pos + 1;
            if d == '>' {
                Ok(Token::Arrow)
            } else if d == '0' {
                if self.zero_continues() {
                    Err(LexError::ParseNumberError)
                } else {
                    Ok(Token::Number(0))
                }
            } else if '1' <= d && d <= '9' {
                let start = self.pos - 1;
                let e = self.numeric_run(self.pos);
                self.pos = e;
                match parse_number(&self.chars, start, e, true) {
                    Some(v) => Ok(Token::Number(v)),
                    None => Err(LexError::ParseNumberError),
                }
            } else {
                Ok(Token::Minus)
            }
        } else if c == '0' {
            if self.zero_continues() {
                Err(LexError::ParseNumberError)
            } else {
                Ok(Token::Number(0))
            }
        } else if '1' <= c && c <= '9' {
            let e = self.numeric_run(self.pos);
            self.pos = e;
            match parse_number(&self.chars, i, e, false) {
                Some(v) => Ok(Token::Number(v)),
                None => Err(LexError::ParseNumberError),
            }
        } else if ('a' <= c && c <= 'z') || ('A' <= c && c <= 'Z') || c == '_' {
            let (identifier, e) = self.word(i);
            self.pos = e;
            if let Ok(keyword) = Keyword::from_word(identifier.as_str()) {
                Ok(Token::Keyword(keyword))
            } else if let Ok(ty) = PrimitiveType::from_word(identifier.as_str()) {
                Ok(Token::Type(ty))
            } else {
                Ok(Token::Identifier(identifier))
            }
        } else {
            Err(LexError::UnsupportedToken)
        }
    }
}

impl<'a> Lexer<'a> for StringLexer {
    fn lex(&mut self) -> (r: Result<Vec<Token>, LexError>)
        ensures
            old(self).well_formed() ==> match lex_from(old(self).text(), old(self).position()) {
                Ok(ts) => r matches Ok(v) && tokens_view(v@) == ts,
                Err(e) => r == Err::<Vec<Token>, LexError>(e),
            },
    {
        if self.pos > self.chars.len() {
            return Err(LexError::UnsupportedToken);
        }
        let ghost s = self.text();
        let ghost p0 = self.position();
        let mut result: Vec<Token> = Vec::new();
        loop
            invariant
                self.well_formed(),
                self.text() == s,
                s == old(self).text(),
                p0 == old(self).position(),
                old(self).well_formed(),
                match lex_from(s, p0) {
                    Ok(ts) => match lex_from(s, self.position()) {
                        Ok(rest) => ts == tokens_view(result@) + rest,
                        Err(_) => false,
                    },
                    Err(e) => lex_from(s, self.position()) == Err::<Seq<TokenV>, LexError>(e),
                },
            decreases s.len() - self.position(),
        {
            let ghost cur = self.position();
            let ghost before = result@;
            proof {
                lemma_scan_progress(s, cur);
            }
            let token = match self.next_token() {
                Ok(t) => t,
                Err(e) => {
                    return Err(e);
                },
            };
            let is_eof = match token {
                Token::EOF => true,
                _ => false,
            };
            result.push(token);
            proof {
                assert(tokens_view(result@) =~= tokens_view(before).push(token@));
            }
            if is_eof {
                return Ok(result);
            }
        }
    }
}

} // verus!
