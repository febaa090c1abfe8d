//! Properties of the library as a whole, stated over the models that the
//! functions' contracts use and proved here.
use vstd::prelude::*;
use crate::instruction::{reg_bound, typed_op, Instruction, OpCode};
use crate::lexer as legacy;
use crate::report::{lemma_next_newline, line_of, next_newline, text_end};
use crate::runner::{
    jump_offset, new_frame, resized, set_top, start_spec, step_spec, with_pc, FrameV, StepV,
};
use crate::syntax::ast::{BinOp, Declaration, Expression, Spanned, TypeName, UniOp};
use crate::syntax::lexer::{
    decimal_u64, is_integer_type, keyword_of, keyword_str, lemma_scan_progress, lex_from, prim_cast,
    scan, token_at, type_of, type_str, word_kind, Keyword, PrimitiveType, Scan, TokenKindV, TokenV,
};
use crate::text::{byte_len, byte_pos, lemma_byte_len_ge, lemma_byte_pos_mono, lemma_encode_concat};
use vstd::utf8::encode_utf8;
use crate::translate::env::{
    free_reg, free_reg_from, func_index, lookup_func, lookup_var, names_unique, reg_used, var_index,
    with_var, GEnvV, LEnvV,
};
use crate::translate::host::{host_defs, host_functions_view};
use crate::translate::lir::{code_fits, function_spec, max_reg, FunctionV, SigV};
use crate::translate::model::{
    assemble, jump_hi, jump_lo, lay_branches, patch_exits, BranchOut, args_code, const_index, expr_code, fn_code, fns_code, name_of, program_code, register_decls, sig_of,
    with_const, Outcome,
};
use crate::translate::error::ErrorKindV;
use crate::translate::typing::type_cast;

verus! {

/* Spelling */

/// Every keyword is read back from its spelling.
pub proof fn keyword_spelling_round_trip(k: Keyword)
    ensures
        keyword_of(keyword_str(k)) == Some(k),
{
    reveal(keyword_of);
}

/// Every primitive type that source text can name is read back from its
/// spelling; the literal-integer type is not read from any.
pub proof fn type_spelling_round_trip(t: PrimitiveType)
    ensures
        t != PrimitiveType::Integer ==> type_of(type_str(t)) == Some(t),
        type_of(type_str(PrimitiveType::Integer)) is None,
{
    reveal(type_of);
}

/// The older lexer reads every keyword back from its spelling.
pub proof fn legacy_keyword_spelling_round_trip(k: legacy::Keyword)
    ensures
        legacy::keyword_of(legacy::keyword_str(k)) == Some(k),
{
}

/// The older lexer reads every primitive type back from its spelling.
pub proof fn legacy_type_spelling_round_trip(t: legacy::PrimitiveType)
    ensures
        legacy::type_of(legacy::type_str(t)) == Some(t),
{
}

/* Types */

/// A primitive type fits where the same type is asked for.
pub proof fn prim_cast_reflexive(t: PrimitiveType)
    ensures
        prim_cast(t, t) == Some(t),
{
}

/// Whether two primitive types fit together, and the type they make, does
/// not depend on which of them is asked for.
pub proof fn prim_cast_symmetric(a: PrimitiveType, b: PrimitiveType)
    ensures
        prim_cast(a, b) == prim_cast(b, a),
{
}

/// The literal-integer type takes on any integer type, and never `bool`.
pub proof fn integer_literal_adapts(t: PrimitiveType)
    ensures
        is_integer_type(t) ==> prim_cast(PrimitiveType::Integer, t) == Some(t),
        prim_cast(PrimitiveType::Integer, PrimitiveType::Bool) is None,
        prim_cast(PrimitiveType::Bool, PrimitiveType::Integer) is None,
{
}

/// A type fits where the same type is asked for, and a diverging value
/// fits anywhere, taking the type asked for.
pub proof fn type_cast_reflexive_and_never(t: TypeName)
    ensures
        type_cast(t, t) == Ok::<TypeName, crate::translate::error::ErrorKindV>(t),
        type_cast(t, TypeName::Never) == Ok::<TypeName, crate::translate::error::ErrorKindV>(t),
{
}

/// Every arithmetic operator and every comparison by order has an
/// instruction for each integer type that a value can have; `bool` and the
/// still-open literal-integer type have none.
pub proof fn typed_ops_exist(op: BinOp, t: PrimitiveType)
    requires
        op == BinOp::Add || op == BinOp::Sub || op == BinOp::Mul || op == BinOp::Div || op == BinOp::Rem
            || op == BinOp::LT || op == BinOp::LE,
    ensures
        is_integer_type(t) && t != PrimitiveType::Integer <==> typed_op(op, t) is Some,
{
}

/* Lexing */

/// The tokens of a lexing: they end with the end of input, which occurs
/// nowhere else, and the others cover non-empty byte ranges within
/// `[lo, hi]`, each ending before the next begins.
pub open spec fn tokens_in_order(ts: Seq<TokenV>, lo: int, hi: int) -> bool {
    &&& ts.len() >= 1
    &&& ts.last().0 is EOF
    &&& forall|i: int|
        0 <= i < ts.len() - 1 ==> !((#[trigger] ts[i]).0 is EOF) && lo <= ts[i].1.0 < ts[i].1.1 <= hi
    &&& forall|i: int, j: int|
        0 <= i < j < ts.len() - 1 ==> (#[trigger] ts[i]).1.1 <= (#[trigger] ts[j]).1.0
}

/// Lexing from any position gives tokens in source order, ending with a
/// single end of input. (The source's length in bytes fits in `usize`, as
/// that of any string does.)
pub proof fn lexed_tokens_in_order(s: Seq<char>, p: int)
    requires
        0 <= p <= s.len(),
        byte_len(s) <= usize::MAX,
    ensures
        lex_from(s, p).0 matches Ok(ts) ==> tokens_in_order(ts, byte_pos(s, p), byte_len(s)),
    decreases s.len() - p,
{
    lemma_scan_progress(s, p);
    match scan(s, p) {
        Scan::Fail(e, q) => {},
        Scan::Tok(k, i, j) => {
            if !(k is EOF) {
                lexed_tokens_in_order(s, j);
                let t = token_at(s, k, i, j);
                lemma_byte_pos_mono(s, p, i);
                lemma_byte_pos_mono(s, i, j);
                lemma_byte_pos_mono(s, j, s.len() as int);
                lemma_byte_len_ge(s.subrange(i, j));
                if let Ok(rest) = lex_from(s, j).0 {
                    let ts = seq![t] + rest;
                    assert(lex_from(s, p).0 == Ok::<Seq<TokenV>, crate::syntax::lexer::LexError>(ts));
                    assert forall|a: int| 0 <= a < ts.len() - 1 implies !((#[trigger] ts[a]).0 is EOF)
                        && byte_pos(s, p) <= ts[a].1.0 < ts[a].1.1 <= byte_len(s) by {
                        if a > 0 {
                            assert(ts[a] == rest[a - 1]);
                        } else {
                            assert(ts[a] == t);
                        }
                    }
                    assert forall|a: int, b: int| 0 <= a < b < ts.len() - 1 implies (#[trigger] ts[a]).1.1
                        <= (#[trigger] ts[b]).1.0 by {
                        assert(ts[b] == rest[b - 1]);
                        if a > 0 {
                            assert(ts[a] == rest[a - 1]);
                        }
                    }
                }
            }
        },
    }
}

/// The characters that a token of a fixed spelling is written with.
pub open spec fn fixed_spelling(k: TokenKindV) -> Seq<char> {
    match k {
        TokenKindV::LParen => seq!['('],
        TokenKindV::RParen => seq![')'],
        TokenKindV::LBrace => seq!['{'],
        TokenKindV::RBrace => seq!['}'],
        TokenKindV::Comma => seq![','],
        TokenKindV::Dot => seq!['.'],
        TokenKindV::Colon => seq![':'],
        TokenKindV::Semicolon => seq![';'],
        TokenKindV::VBar => seq!['|'],
        TokenKindV::Ampersand => seq!['&'],
        TokenKindV::Plus => seq!['+'],
        TokenKindV::Minus => seq!['-'],
        TokenKindV::Asterisk => seq!['*'],
        TokenKindV::Slash => seq!['/'],
        TokenKindV::Percent => seq!['%'],
        TokenKindV::Equal => seq!['='],
        TokenKindV::Arrow => seq!['-', '>'],
        TokenKindV::DoubleEqual => seq!['=', '='],
        TokenKindV::LT => seq!['<'],
        TokenKindV::GT => seq!['>'],
        TokenKindV::LE => seq!['<', '='],
        TokenKindV::GE => seq!['>', '='],
        TokenKindV::NE => seq!['!', '='],
        TokenKindV::Exclamation => seq!['!'],
        TokenKindV::DoubleAmpersand => seq!['&', '&'],
        TokenKindV::DoubleVbar => seq!['|', '|'],
        _ => seq![],
    }
}

/// Whether `w` is the text of a token of kind `k`: a number's decimal
/// digits, a keyword's or a type's spelling, an identifier's own
/// characters (which spell no keyword or type), or the fixed spelling of a
/// symbol.
pub open spec fn spells(k: TokenKindV, w: Seq<char>) -> bool {
    match k {
        TokenKindV::Number(v) => decimal_u64(w) == Some(v),
        TokenKindV::Keyword(kw) => w == keyword_str(kw),
        TokenKindV::Type(t) => w == type_str(t),
        TokenKindV::Identifier(x) => w == x && keyword_of(w) is None && type_of(w) is None,
        TokenKindV::EOF => w.len() == 0,
        _ => w == fixed_spelling(k),
    }
}

/// The bytes of a source between the offsets of two character indices are
/// the encoding of the characters between them.
pub proof fn lemma_span_bytes(s: Seq<char>, i: int, j: int)
    requires
        0 <= i <= j <= s.len(),
    ensures
        encode_utf8(s).subrange(byte_pos(s, i), byte_pos(s, j)) == encode_utf8(s.subrange(i, j)),
{
    assert(s.take(j) =~= s.take(i) + s.subrange(i, j));
    lemma_encode_concat(s.take(i), s.subrange(i, j));
    assert(s =~= s.take(j) + s.skip(j));
    lemma_encode_concat(s.take(j), s.skip(j));
    assert(encode_utf8(s).subrange(byte_pos(s, i), byte_pos(s, j)) =~= encode_utf8(s.subrange(i, j)));
}

proof fn lemma_word_spells(w: Seq<char>)
    ensures
        spells(word_kind(w), w),
{
    reveal(keyword_of);
    reveal(type_of);
}

/// A token read from the source is spelled by the characters it covers.
proof fn lemma_scan_spells(s: Seq<char>, p: int)
    requires
        0 <= p <= s.len(),
    ensures
        scan(s, p) matches Scan::Tok(k, i, j) ==> spells(k, s.subrange(i, j)),
{
    lemma_scan_progress(s, p);
    reveal(scan);
    if let Scan::Tok(k, i, j) = scan(s, p) {
        if i < s.len() {
            let c = s[i];
            assert(s.subrange(i, i + 1) =~= seq![c]);
            if i + 1 < s.len() {
                assert(s.subrange(i, i + 2) =~= seq![c, s[i + 1]]);
            }
            if k is Number && c == '0' {
                let z = seq!['0'];
                assert(decimal_u64(z) == Some(0u64)) by {
                    assert(z.drop_last() =~= Seq::<char>::empty());
                    assert(z.last() == '0');
                    assert(crate::syntax::lexer::digits_value(z.drop_last()) == 0);
                    assert(crate::syntax::lexer::digits_value(z) == 0);
                    assert forall|q: int| 0 <= q < z.len() implies crate::text::is_ascii_digit(#[trigger] z[q]) by {
                        assert(z[q] == '0');
                    }
                }
            }
            if crate::text::is_ident_start(c) && !('1' <= c <= '9') && c != '0' {
                lemma_word_spells(s.subrange(i, j));
            }
        } else {
            assert(s.subrange(i, j) =~= Seq::<char>::empty());
        }
    }
}

/// Each token of a lexing, but the end of input, covers some characters of
/// the source from the starting position on: its span is their byte range,
/// the bytes there are their encoding, and they spell the token.
pub proof fn token_text_is_lexeme(s: Seq<char>, p: int)
    requires
        0 <= p <= s.len(),
    ensures
        lex_from(s, p).0 matches Ok(ts) ==> forall|a: int|
            0 <= a < ts.len() - 1 ==> exists|i: int, j: int|
                #![trigger s.subrange(i, j)]
                p <= i < j <= s.len() && (#[trigger] ts[a]).1 == crate::syntax::lexer::Span(
                    byte_pos(s, i) as usize,
                    byte_pos(s, j) as usize,
                ) && encode_utf8(s).subrange(byte_pos(s, i), byte_pos(s, j)) == encode_utf8(
                    s.subrange(i, j),
                ) && spells(ts[a].0, s.subrange(i, j)),
    decreases s.len() - p,
{
    lemma_scan_progress(s, p);
    lemma_scan_spells(s, p);
    if let Scan::Tok(k, i, j) = scan(s, p) {
        if !(k is EOF) {
            token_text_is_lexeme(s, j);
            if let Ok(rest) = lex_from(s, j).0 {
                let ts = seq![token_at(s, k, i, j)] + rest;
                assert(lex_from(s, p).0 == Ok::<Seq<TokenV>, crate::syntax::lexer::LexError>(ts));
                lemma_span_bytes(s, i, j);
                assert forall|a: int| 0 <= a < ts.len() - 1 implies exists|x: int, y: int|
                    #![trigger s.subrange(x, y)]
                    p <= x < y <= s.len() && (#[trigger] ts[a]).1 == crate::syntax::lexer::Span(
                        byte_pos(s, x) as usize,
                        byte_pos(s, y) as usize,
                    ) && encode_utf8(s).subrange(byte_pos(s, x), byte_pos(s, y)) == encode_utf8(
                        s.subrange(x, y),
                    ) && spells(ts[a].0, s.subrange(x, y)) by {
                    if a == 0 {
                        assert(ts[a] == token_at(s, k, i, j));
                        assert(s.subrange(i, j) == s.subrange(i, j));
                    } else {
                        assert(ts[a] == rest[a - 1]);
                    }
                }
            }
        }
    }
}

/// Whether `c` is an ASCII letter, digit or underscore.
pub open spec fn ascii_word_char(c: char) -> bool {
    ('a' <= c <= 'z') || ('A' <= c <= 'Z') || ('0' <= c <= '9') || c == '_'
}

proof fn lemma_ident_end_all(w: Seq<char>, p: int)
    requires
        0 <= p <= w.len(),
        forall|q: int| 0 <= q < w.len() ==> ascii_word_char(#[trigger] w[q]),
    ensures
        crate::syntax::lexer::ident_end(w, p) == w.len(),
    decreases w.len() - p,
{
    if p < w.len() {
        assert(ascii_word_char(w[p]));
        lemma_ident_end_all(w, p + 1);
    }
}

/// A source that is one ASCII word, starting with a letter or `_`, lexes to
/// that word's token over the whole source, then the end of input: a
/// keyword, a type, or else an identifier.
pub proof fn ascii_word_lexes_whole(w: Seq<char>)
    requires
        w.len() > 0,
        crate::text::is_ident_start(w[0]),
        forall|q: int| 0 <= q < w.len() ==> ascii_word_char(#[trigger] w[q]),
    ensures
        lex_from(w, 0).0 == Ok::<Seq<TokenV>, crate::syntax::lexer::LexError>(
            seq![
                (word_kind(w), crate::syntax::lexer::Span(0, w.len() as usize)),
                (TokenKindV::EOF, crate::syntax::lexer::Span(0, 0)),
            ],
        ),
{
    reveal(scan);
    assert(ascii_word_char(w[0]));
    lemma_ident_end_all(w, 1);
    assert(w.subrange(0, w.len() as int) =~= w);
    crate::text::lemma_byte_len_ascii(w);
    assert(w.take(0) =~= Seq::<char>::empty());
    assert(byte_pos(w, 0) == 0) by {
        reveal_with_fuel(encode_utf8, 1);
    }
    assert(w.take(w.len() as int) =~= w);
    assert(scan(w, 0) == Scan::Tok(word_kind(w), 0, w.len() as int));
    assert(scan(w, w.len() as int) == Scan::Tok(TokenKindV::EOF, w.len() as int, w.len() as int));
    lemma_scan_progress(w, 0);
    assert(lex_from(w, w.len() as int).0 == Ok::<Seq<TokenV>, crate::syntax::lexer::LexError>(
        seq![(TokenKindV::EOF, crate::syntax::lexer::Span(0, 0))],
    ));
    assert(word_kind(w) !is EOF);
    assert(seq![(word_kind(w), crate::syntax::lexer::Span(0, w.len() as usize))] + seq![
        (TokenKindV::EOF, crate::syntax::lexer::Span(0, 0)),
    ] =~= seq![
        (word_kind(w), crate::syntax::lexer::Span(0, w.len() as usize)),
        (TokenKindV::EOF, crate::syntax::lexer::Span(0, 0)),
    ]);
}

/// The older lexer's tokens end with the end of input, which occurs
/// nowhere else.
pub proof fn legacy_lexed_ends_once(s: Seq<char>, p: int)
    ensures
        legacy::lex_from(s, p) matches Ok(ts) ==> ts.len() >= 1 && ts.last() is EOF && forall|i: int|
            0 <= i < ts.len() - 1 ==> !(#[trigger] ts[i] is EOF),
    decreases s.len() - p,
{
    if 0 <= p <= s.len() {
        legacy::lemma_scan_progress(s, p);
        if let legacy::LScan::Tok(t, q) = legacy::scan(s, p) {
            if !(t is EOF) && p < q <= s.len() {
                legacy_lexed_ends_once(s, q);
                if let Ok(rest) = legacy::lex_from(s, q) {
                    let ts = seq![t] + rest;
                    assert forall|i: int| 0 <= i < ts.len() - 1 implies !(#[trigger] ts[i] is EOF) by {
                        if i > 0 {
                            assert(ts[i] == rest[i - 1]);
                        }
                    }
                }
            }
        }
    }
}

/* Constants */

proof fn lemma_const_index(c: Seq<u64>, n: u64, k: int)
    requires
        0 <= k <= c.len(),
    ensures
        const_index(c, n, k) == -1 || k <= const_index(c, n, k),
        const_index(c, n, k) == -1 <==> forall|j: int| k <= j < c.len() ==> c[j] != n,
        const_index(c, n, k) >= 0 ==> k <= const_index(c, n, k) < c.len() && c[const_index(c, n, k)] == n,
    decreases c.len() - k,
{
    if k < c.len() {
        lemma_const_index(c, n, k + 1);
    }
}

proof fn lemma_const_index_push(c: Seq<u64>, n: u64, k: int)
    requires
        0 <= k <= c.len(),
        const_index(c, n, k) == -1,
    ensures
        const_index(c.push(n), n, k) == c.len(),
    decreases c.len() - k,
{
    if k < c.len() {
        assert(c.push(n)[k] == c[k]);
        assert(c[k] != n);
        assert(const_index(c, n, k + 1) == -1);
        lemma_const_index_push(c, n, k + 1);
    } else {
        assert(c.push(n)[k] == n);
    }
}

/// Adding a constant, with fewer than 2^16 there: its index points at it,
/// the constants before stay where they were, at most one is appended,
/// nothing is appended when an equal one is there, and adding it again
/// changes nothing and gives the same index.
pub proof fn add_const_law(c: Seq<u64>, n: u64)
    requires
        c.len() <= u16::MAX,
    ensures
        ({
            let (c2, i) = with_const(c, n);
            &&& i < c2.len()
            &&& c2[i as int] == n
            &&& c2.len() <= c.len() + 1
            &&& c2.subrange(0, c.len() as int) == c
            &&& c.contains(n) ==> c2 == c
            &&& with_const(c2, n) == (c2, i)
        }),
{
    lemma_const_index(c, n, 0);
    let (c2, i) = with_const(c, n);
    if const_index(c, n, 0) >= 0 {
        assert(c2 == c);
        assert(c2.subrange(0, c.len() as int) =~= c);
        assert(with_const(c2, n) == (c2, i));
    } else {
        lemma_const_index_push(c, n, 0);
        assert(c2 == c.push(n));
        assert(i == c.len());
        assert(c2[i as int] == n);
        assert(c2.subrange(0, c.len() as int) =~= c);
        assert(const_index(c2, n, 0) == c.len());
        assert(with_const(c2, n) == (c2, i));
        if c.contains(n) {
            let j = choose|j: int| 0 <= j < c.len() && c[j] == n;
            assert(c[j] == n);
        }
    }
}

/* Variables */

proof fn lemma_var_index(l: LEnvV, name: Seq<char>, k: int)
    requires
        0 <= k <= l.len(),
    ensures
        var_index(l, name, k) == -1 || k <= var_index(l, name, k),
        var_index(l, name, k) == -1 ==> forall|j: int| k <= j < l.len() ==> l[j].0 != name,
        var_index(l, name, k) >= 0 ==> {
            let i = var_index(l, name, k);
            &&& k <= i < l.len()
            &&& l[i].0 == name
            &&& forall|j: int| k <= j < i ==> l[j].0 != name
        },
    decreases l.len() - k,
{
    if k < l.len() {
        lemma_var_index(l, name, k + 1);
    }
}

/// The first index from `k` of a name is determined by the names alone.
proof fn lemma_var_index_names(l: LEnvV, m: LEnvV, name: Seq<char>, k: int)
    requires
        0 <= k <= m.len(),
        l.len() <= m.len(),
        forall|j: int| 0 <= j < l.len() ==> (l[j].0 == name <==> m[j].0 == name),
        forall|j: int| l.len() <= j < m.len() ==> m[j].0 != name,
    ensures
        var_index(l, name, k) == var_index(m, name, k),
    decreases m.len() - k,
{
    if k < l.len() {
        lemma_var_index_names(l, m, name, k + 1);
    } else if k < m.len() {
        lemma_var_index_names(l, m, name, k + 1);
    }
}

proof fn lemma_var_index_at(l: LEnvV, name: Seq<char>, k: int, i: int)
    requires
        0 <= k <= i < l.len(),
        l[i].0 == name,
        forall|j: int| k <= j < i ==> l[j].0 != name,
    ensures
        var_index(l, name, k) == i,
    decreases i - k,
{
    if k < i {
        lemma_var_index_at(l, name, k + 1, i);
    }
}

/// After a variable is bound, looking it up gives the new binding, and
/// every other name keeps its binding.
pub proof fn bound_variable_is_found(l: LEnvV, name: Seq<char>, ty: TypeName, reg: u16, other: Seq<char>)
    requires
        other != name,
    ensures
        lookup_var(with_var(l, name, ty, reg), name) == Some((ty, reg)),
        lookup_var(with_var(l, name, ty, reg), other) == lookup_var(l, other),
{
    lemma_var_index(l, name, 0);
    lemma_var_index(l, other, 0);
    let l2 = with_var(l, name, ty, reg);
    let i = var_index(l, name, 0);
    if i >= 0 {
        assert forall|j: int| 0 <= j < i implies l2[j].0 != name by {
            assert(l2[j] == l[j]);
        }
        lemma_var_index_at(l2, name, 0, i);
        assert forall|j: int| 0 <= j < l.len() implies (l[j].0 == other <==> l2[j].0 == other) by {}
        lemma_var_index_names(l, l2, other, 0);
        let o = var_index(l, other, 0);
        if o >= 0 {
            assert(l2[o] == l[o]);
        }
    } else {
        let n = l.len() as int;
        assert forall|j: int| 0 <= j < n implies l2[j].0 != name by {
            assert(l2[j] == l[j]);
        }
        lemma_var_index_at(l2, name, 0, n);
        assert forall|j: int| 0 <= j < l.len() implies (l[j].0 == other <==> l2[j].0 == other) by {
            assert(l2[j] == l[j]);
        }
        lemma_var_index_names(l, l2, other, 0);
        let o = var_index(l, other, 0);
        if o >= 0 {
            assert(l2[o] == l[o]);
        }
    }
}

/// Binding a variable keeps the names of the environment distinct.
pub proof fn binding_keeps_names_unique(l: LEnvV, name: Seq<char>, ty: TypeName, reg: u16)
    requires
        names_unique(l),
    ensures
        names_unique(with_var(l, name, ty, reg)),
{
    lemma_var_index(l, name, 0);
    let l2 = with_var(l, name, ty, reg);
    let i = var_index(l, name, 0);
    assert forall|a: int, b: int| 0 <= a < b < l2.len() implies l2[a].0 != l2[b].0 by {
        if i >= 0 {
            assert(l2[a].0 == l[a].0);
            assert(l2[b].0 == l[b].0);
        } else if b < l.len() {
            assert(l2[a] == l[a]);
            assert(l2[b] == l[b]);
        } else {
            assert(l2[a] == l[a]);
        }
    }
}

proof fn lemma_free_reg_from(l: LEnvV, r: int, w: int)
    requires
        0 <= r <= w < 0xffff,
        !reg_used(l, w),
    ensures
        r <= free_reg_from(l, r) <= w,
        !reg_used(l, free_reg_from(l, r) as int),
    decreases w - r,
{
    if reg_used(l, r) {
        lemma_free_reg_from(l, r + 1, w);
    }
}

/// Where some register below 0xffff is held by no variable, the register
/// that the next variable gets is held by none, and no lower one is free.
pub proof fn free_register_is_free(l: LEnvV, w: int)
    requires
        0 <= w < 0xffff,
        !reg_used(l, w),
    ensures
        !reg_used(l, free_reg(l) as int),
        free_reg(l) <= w,
{
    lemma_free_reg_from(l, 0, w);
}

/* Functions */

proof fn lemma_func_index(g: GEnvV, name: Seq<char>, k: int)
    requires
        0 <= k <= g.len(),
    ensures
        func_index(g, name, k) == -1 || k <= func_index(g, name, k),
        func_index(g, name, k) == -1 ==> forall|j: int| k <= j < g.len() ==> g[j].0 != name,
        func_index(g, name, k) >= 0 ==> k <= func_index(g, name, k) < g.len() && g[func_index(g, name, k)].0 == name,
    decreases g.len() - k,
{
    if k < g.len() {
        lemma_func_index(g, name, k + 1);
    }
}

proof fn lemma_func_index_push(g: GEnvV, e: (Seq<char>, SigV), name: Seq<char>, k: int)
    requires
        0 <= k <= g.len(),
    ensures
        func_index(g, name, k) >= 0 ==> func_index(g.push(e), name, k) == func_index(g, name, k),
        func_index(g, name, k) == -1 ==> func_index(g.push(e), name, k) == if e.0 == name {
            g.len() as int
        } else {
            -1
        },
    decreases g.len() - k,
{
    if k < g.len() {
        assert(g.push(e)[k] == g[k]);
        lemma_func_index_push(g, e, name, k + 1);
    } else {
        assert(g.push(e)[k] == e);
        assert(func_index(g.push(e), name, k + 1) == -1);
    }
}

/// Registering a function: a new name is then found with its signature and
/// the next id; a name already known keeps its first definition.
pub proof fn registered_function_is_found(g: GEnvV, name: Seq<char>, sig: SigV, other: Seq<char>)
    requires
        g.len() < u16::MAX,
    ensures
        lookup_func(g, name) is None ==> lookup_func(g.push((name, sig)), name) == Some((sig, g.len() as u16)),
        lookup_func(g, other) is Some ==> lookup_func(g.push((name, sig)), other) == lookup_func(g, other),
        other != name ==> lookup_func(g.push((name, sig)), other) == lookup_func(g, other),
{
    lemma_func_index_push(g, (name, sig), name, 0);
    lemma_func_index_push(g, (name, sig), other, 0);
    lemma_func_index(g, other, 0);
    lemma_func_index(g, name, 0);
    let i = func_index(g, other, 0);
    if i >= 0 {
        assert(g.push((name, sig))[i] == g[i]);
    }
}

/* Running */

/// Every call on the stack is of a function that exists, with as many
/// registers as that function declares.
pub open spec fn frames_fit(fs: Seq<FunctionV>, st: Seq<FrameV>) -> bool {
    forall|k: int|
        0 <= k < st.len() ==> (#[trigger] st[k]).0 < fs.len() && st[k].2.len()
            == fs[st[k].0 as int].register_count
}

proof fn lemma_resized_len(regs: Seq<u64>, n: int)
    requires
        n >= 0,
    ensures
        resized(regs, n).len() == n,
{
}

/// The innermost call may change its instruction and its registers' values.
proof fn lemma_set_top_fits(fs: Seq<FunctionV>, st: Seq<FrameV>)
    requires
        frames_fit(fs, st),
        st.len() > 0,
    ensures
        forall|f: FrameV|
            f.0 == st.last().0 && f.2.len() == st.last().2.len() ==> #[trigger] frames_fit(fs, set_top(st, f)),
{
    assert forall|f: FrameV| f.0 == st.last().0 && f.2.len() == st.last().2.len() implies #[trigger] frames_fit(
        fs,
        set_top(st, f),
    ) by {
        let st2 = set_top(st, f);
        assert forall|k: int| 0 <= k < st2.len() implies (#[trigger] st2[k]).0 < fs.len() && st2[k].2.len()
            == fs[st2[k].0 as int].register_count by {
            if k < st.len() - 1 {
                assert(st2[k] == st[k]);
            } else {
                assert(st[k] == st.last());
            }
        }
    }
}

/// A program starts with a single call, of a function that exists, with as
/// many registers as it declares.
pub proof fn start_frames_fit(fs: Seq<FunctionV>, entry: Seq<char>)
    ensures
        start_spec(fs, entry) matches Some(Ok(st)) ==> st.len() == 1 && frames_fit(fs, st),
{
    if let Some(Ok(st)) = start_spec(fs, entry) {
        let f = st[0];
        lemma_resized_len(seq![], fs[f.0 as int].register_count as int);
    }
}

/// Each step keeps every call with as many registers as its function
/// declares; a step adds or removes at most one call, writing a character
/// leaves the calls as many as they were, and a program finishes only from
/// its outermost call.
pub proof fn step_keeps_frames_fit(fs: Seq<FunctionV>, st: Seq<FrameV>)
    requires
        frames_fit(fs, st),
    ensures
        step_spec(fs, st) matches StepV::Next(st2) ==> frames_fit(fs, st2) && st.len() - 1 <= st2.len()
            <= st.len() + 1,
        step_spec(fs, st) matches StepV::Output(_, st2) ==> frames_fit(fs, st2) && st2.len() == st.len(),
        step_spec(fs, st) is Finished ==> st.len() == 1,
{
    if st.len() > 0 && st.last().0 < fs.len() {
        let f = st.last();
        assert(f == st[st.len() - 1]);
        let func = fs[f.0 as int];
        if f.1 < func.code.len() {
            let i = func.code[f.1 as int];
            let (a, b, c) = (i.1 as int, i.2 as int, i.3 as int);
            let next = f.1 + 1;
            lemma_set_top_fits(fs, st);
            match step_spec(fs, st) {
                StepV::Next(st2) => {
                    match i.0 {
                        OpCode::Ret => {
                            let rest = st.drop_last();
                            let caller = rest.last();
                            assert(caller == st[st.len() - 2]);
                            assert(frames_fit(fs, rest));
                            if rest.len() > 0 {
                                lemma_set_top_fits(fs, rest);
                            }
                        },
                        OpCode::FnCall => {
                            let mid = set_top(st, with_pc(f, next));
                            let callee = new_frame(fs, a as usize, f.2.subrange(b + 1, b + 1 + c), b as u16);
                            lemma_resized_len(f.2.subrange(b + 1, b + 1 + c), fs[a].register_count as int);
                            assert forall|k: int| 0 <= k < mid.push(callee).len() implies (#[trigger] mid.push(callee)[k]).0
                                < fs.len() && mid.push(callee)[k].2.len() == fs[mid.push(callee)[k].0 as int].register_count by {
                                if k < mid.len() {
                                    assert(mid.push(callee)[k] == mid[k]);
                                }
                            }
                        },
                        _ => {},
                    }
                },
                _ => {},
            }
        }
    }
}

/* Translated code */

/// Every register that the code of `f` names is below its register count.
pub open spec fn registers_cover(f: FunctionV) -> bool {
    forall|k: int|
        0 <= k < f.code.len() ==> match reg_bound(#[trigger] f.code[k]) {
            Some(n) => n < f.register_count,
            None => true,
        }
}

proof fn lemma_reg_bound_le_max(code: Seq<Instruction>, k: int)
    requires
        0 <= k < code.len(),
    ensures
        reg_bound(code[k]) matches Some(n) ==> n <= max_reg(code),
        max_reg(code) >= 0,
    decreases code.len(),
{
    if k < code.len() - 1 {
        assert(code.drop_last()[k] == code[k]);
        lemma_reg_bound_le_max(code.drop_last(), k);
    } else if code.len() > 1 {
        lemma_reg_bound_le_max(code.drop_last(), 0);
    }
}

proof fn lemma_function_spec_covers(name: Seq<char>, fid: u16, sig: SigV, code: Seq<Instruction>, c: Seq<u64>)
    requires
        code_fits(code),
    ensures
        registers_cover(function_spec(name, fid, sig, code, c)),
{
    let f = function_spec(name, fid, sig, code, c);
    assert forall|k: int| 0 <= k < f.code.len() implies match reg_bound(#[trigger] f.code[k]) {
        Some(n) => n < f.register_count,
        None => true,
    } by {
        lemma_reg_bound_le_max(code, k);
    }
}

proof fn lemma_fns_code_covers<'src>(g: GEnvV, decls: Seq<Declaration<'src>>, k: int, acc: Seq<FunctionV>)
    requires
        forall|f: int| 0 <= f < acc.len() ==> registers_cover(#[trigger] acc[f]),
    ensures
        fns_code(g, decls, k, acc) matches Outcome::Done(fs) ==> forall|f: int|
            0 <= f < fs.len() ==> registers_cover(#[trigger] fs[f]),
    decreases decls.len() - k,
{
    if 0 <= k < decls.len() {
        if let Outcome::Done(f) = fn_code(g, decls[k]) {
            reveal(fn_code);
            match decls[k] {
                Declaration::FnDecl { name, params, ret_ty, body } => {
                    lemma_function_spec_covers(f.name, f.func_id, f.signature, f.code, f.constants);
                },
            }
            assert(registers_cover(f));
            let acc2 = acc.push(f);
            assert forall|i: int| 0 <= i < acc2.len() implies registers_cover(#[trigger] acc2[i]) by {
                if i < acc.len() {
                    assert(acc2[i] == acc[i]);
                }
            }
            lemma_fns_code_covers(g, decls, k + 1, acc2);
        }
    }
}

/// Every register that the code of a translated function names is one that
/// a call of it has: below the function's register count.
pub proof fn translated_registers_exist<'src>(decls: Seq<Declaration<'src>>)
    ensures
        program_code(decls) matches Outcome::Done(fs) ==> forall|f: int|
            0 <= f < fs.len() ==> registers_cover(#[trigger] fs[f]),
{
    let g = register_decls(decls, 0, host_defs());
    lemma_fns_code_covers(g, decls, 0, seq![]);
    if let Outcome::Done(fs) = fns_code(g, decls, 0, seq![]) {
        let all = host_functions_view() + fs;
        assert forall|f: int| 0 <= f < all.len() implies registers_cover(#[trigger] all[f]) by {
            if f >= host_functions_view().len() {
                assert(all[f] == fs[f - host_functions_view().len()]);
            }
        }
    }
}

/// The entries that registering the declarations from the `k`-th on adds.
pub open spec fn decl_entries<'src>(decls: Seq<Declaration<'src>>, k: int) -> GEnvV {
    Seq::new((decls.len() - k) as nat, |i: int| (name_of(decls[k + i]), sig_of(decls[k + i])))
}

proof fn lemma_register_decls<'src>(decls: Seq<Declaration<'src>>, k: int, g: GEnvV)
    requires
        0 <= k <= decls.len(),
    ensures
        register_decls(decls, k, g) == g + decl_entries(decls, k),
    decreases decls.len() - k,
{
    if k < decls.len() {
        lemma_register_decls(decls, k + 1, g.push((name_of(decls[k]), sig_of(decls[k]))));
        assert(g.push((name_of(decls[k]), sig_of(decls[k]))) + decl_entries(decls, k + 1) =~= g
            + decl_entries(decls, k));
    } else {
        assert(g + decl_entries(decls, k) =~= g);
    }
}

proof fn lemma_func_index_at(g: GEnvV, name: Seq<char>, k: int, i: int)
    requires
        0 <= k <= i < g.len(),
        g[i].0 == name,
        forall|j: int| k <= j < i ==> g[j].0 != name,
    ensures
        func_index(g, name, k) == i,
    decreases i - k,
{
    if k < i {
        lemma_func_index_at(g, name, k + 1, i);
    }
}

/// The names are pairwise distinct and none is a host function's.
pub open spec fn names_distinct<'src>(decls: Seq<Declaration<'src>>) -> bool {
    &&& forall|i: int, j: int| 0 <= i < j < decls.len() ==> name_of(decls[i]) != name_of(decls[j])
    &&& forall|i: int| 0 <= i < decls.len() ==> name_of(#[trigger] decls[i]) != host_defs()[0].0
}

proof fn lemma_fns_code_ids<'src>(decls: Seq<Declaration<'src>>, k: int, acc: Seq<FunctionV>)
    requires
        names_distinct(decls),
        decls.len() < u16::MAX,
        0 <= k <= decls.len(),
        acc.len() == k,
        forall|f: int| 0 <= f < acc.len() ==> (#[trigger] acc[f]).func_id == f + 1,
    ensures
        fns_code(register_decls(decls, 0, host_defs()), decls, k, acc) matches Outcome::Done(fs) ==> forall|f: int|
            0 <= f < fs.len() ==> (#[trigger] fs[f]).func_id == f + 1,
    decreases decls.len() - k,
{
    let g = register_decls(decls, 0, host_defs());
    if k < decls.len() {
        if let Outcome::Done(f) = fn_code(g, decls[k]) {
            lemma_register_decls(decls, 0, host_defs());
            let name = name_of(decls[k]);
            assert(g[k + 1] == (name, sig_of(decls[k])));
            assert forall|j: int| 0 <= j < k + 1 implies g[j].0 != name by {
                if j >= 1 {
                    assert(g[j].0 == name_of(decls[j - 1]));
                } else {
                    assert(g[j] == host_defs()[0]);
                }
            }
            lemma_func_index_at(g, name, 0, k + 1);
            reveal(fn_code);
            assert(f.func_id == k + 1);
            let acc2 = acc.push(f);
            assert forall|i: int| 0 <= i < acc2.len() implies (#[trigger] acc2[i]).func_id == i + 1 by {
                if i < acc.len() {
                    assert(acc2[i] == acc[i]);
                }
            }
            lemma_fns_code_ids(decls, k + 1, acc2);
        }
    }
}

/// Where the declared names are distinct and none is a host function's,
/// each translated function's id is its position in the program, so that a
/// call by id reaches the function called by name.
pub proof fn translated_ids_are_positions<'src>(decls: Seq<Declaration<'src>>)
    requires
        names_distinct(decls),
        decls.len() < u16::MAX,
    ensures
        program_code(decls) matches Outcome::Done(fs) ==> forall|f: int|
            0 <= f < fs.len() ==> (#[trigger] fs[f]).func_id == f,
{
    let g = register_decls(decls, 0, host_defs());
    lemma_fns_code_ids(decls, 0, seq![]);
    if let Outcome::Done(fs) = fns_code(g, decls, 0, seq![]) {
        let all = host_functions_view() + fs;
        assert forall|f: int| 0 <= f < all.len() implies (#[trigger] all[f]).func_id == f by {
            if f >= 1 {
                assert(all[f] == fs[f - 1]);
            }
        }
    }
}

/* Source lines */

/// The number of line feeds in `b`.
pub open spec fn line_feeds(b: Seq<u8>) -> nat
    decreases b.len(),
{
    if b.len() == 0 {
        0
    } else {
        line_feeds(b.drop_last()) + if b.last() == 10 {
            1nat
        } else {
            0nat
        }
    }
}

/// Whether the byte at `pos` ends a line: a line feed, or a carriage
/// return just before one.
pub open spec fn ends_line(b: Seq<u8>, pos: int) -> bool {
    b[pos] == 10 || (b[pos] == 13 && pos + 1 < b.len() && b[pos + 1] == 10)
}

proof fn lemma_line_feeds_extend(b: Seq<u8>, i: int, j: int)
    requires
        0 <= i <= j <= b.len(),
        forall|k: int| i <= k < j ==> b[k] != 10,
    ensures
        line_feeds(b.subrange(0, j)) == line_feeds(b.subrange(0, i)),
    decreases j - i,
{
    if i < j {
        lemma_line_feeds_extend(b, i, j - 1);
        assert(b.subrange(0, j).drop_last() =~= b.subrange(0, j - 1));
    }
}

proof fn lemma_line_of(b: Seq<u8>, i: int, number: int, pos: int)
    requires
        0 <= i <= b.len(),
        i == 0 || b[i - 1] == 10,
        number == 1 + line_feeds(b.subrange(0, i)),
        i <= pos,
    ensures
        line_of(b, i, number, pos) matches Some((n, s, e)) ==> {
            &&& i <= s <= pos < e <= b.len()
            &&& s == 0 || b[s - 1] == 10
            &&& forall|k: int| s <= k < e ==> !ends_line(b, k)
            &&& n == 1 + line_feeds(b.subrange(0, s))
        },
        line_of(b, i, number, pos) is None <==> (pos >= b.len() || ends_line(b, pos)),
    decreases b.len() - i,
{
    if i < b.len() {
        lemma_next_newline(b, i);
        let nl = next_newline(b, i);
        let e = text_end(b, i);
        if !(i <= pos < e) && nl < b.len() {
            lemma_line_feeds_extend(b, i, nl);
            assert(b.subrange(0, nl + 1).drop_last() =~= b.subrange(0, nl));
            if pos <= nl {
                assert(ends_line(b, pos));
                lemma_line_of_none_here(b, nl + 1, number + 1, pos);
            } else {
                lemma_line_of(b, nl + 1, number + 1, pos);
            }
        } else if !(i <= pos < e) {
            if pos < b.len() {
                assert(ends_line(b, pos));
            }
        } else {
            assert forall|k: int| i <= k < e implies !ends_line(b, k) by {
                if k + 1 < b.len() && b[k] == 13 && b[k + 1] == 10 {
                    assert(k + 1 < nl || k + 1 == nl);
                }
            }
            if pos < b.len() && ends_line(b, pos) {
                assert(false);
            }
        }
    }
}

proof fn lemma_line_of_none_here(b: Seq<u8>, i: int, number: int, pos: int)
    requires
        pos < i,
    ensures
        line_of(b, i, number, pos) is None,
    decreases b.len() - i,
{
    if 0 <= i < b.len() {
        lemma_next_newline(b, i);
        if next_newline(b, i) < b.len() {
            lemma_line_of_none_here(b, next_newline(b, i) + 1, number + 1, pos);
        }
    }
}

/// The line found for an offset holds it: the line starts at the start of
/// the source or after a line feed, no byte of its text ends a line, and
/// its number is one more than the line feeds before it. No line is found
/// exactly where the offset lies past the end of the source or on a line
/// ending.
pub proof fn located_line_holds_offset(b: Seq<u8>, pos: int)
    requires
        0 <= pos,
    ensures
        line_of(b, 0, 1, pos) matches Some((n, s, e)) ==> {
            &&& 0 <= s <= pos < e <= b.len()
            &&& s == 0 || b[s - 1] == 10
            &&& forall|k: int| s <= k < e ==> !ends_line(b, k)
            &&& n == 1 + line_feeds(b.subrange(0, s))
        },
        line_of(b, 0, 1, pos) is None <==> (pos >= b.len() || ends_line(b, pos)),
{
    assert(b.subrange(0, 0) =~= Seq::<u8>::empty());
    lemma_line_of(b, 0, 1, pos);
}

/// How a translated function stands for its declaration: it has the
/// declaration's name and signature, and its code ends with a return of
/// register 0.
pub open spec fn laid_out<'src>(f: FunctionV, d: Declaration<'src>) -> bool {
    &&& f.name == name_of(d)
    &&& f.signature == sig_of(d)
    &&& f.code.len() > 0
    &&& f.code.last() == Instruction(OpCode::Ret, 0, 0, 0)
}

proof fn lemma_fns_code_layout<'src>(g: GEnvV, decls: Seq<Declaration<'src>>, k: int, acc: Seq<FunctionV>)
    requires
        0 <= k <= decls.len(),
    ensures
        fns_code(g, decls, k, acc) matches Outcome::Done(fs) ==> {
            &&& fs.len() == acc.len() + decls.len() - k
            &&& forall|i: int| 0 <= i < acc.len() ==> fs[i] == acc[i]
            &&& forall|j: int| acc.len() <= j < fs.len() ==> laid_out(#[trigger] fs[j], decls[j - acc.len() + k])
        },
    decreases decls.len() - k,
{
    if k < decls.len() {
        if let Outcome::Done(f) = fn_code(g, decls[k]) {
            reveal(fn_code);
            assert(laid_out(f, decls[k]));
            let acc2 = acc.push(f);
            lemma_fns_code_layout(g, decls, k + 1, acc2);
            if let Outcome::Done(fs) = fns_code(g, decls, k, acc) {
                assert(fs[acc.len() as int] == acc2[acc.len() as int]);
                assert forall|i: int| 0 <= i < acc.len() implies fs[i] == acc[i] by {
                    assert(fs[i] == acc2[i]);
                }
                assert forall|j: int| acc.len() <= j < fs.len() implies laid_out(#[trigger] fs[j], decls[j - acc.len() + k]) by {
                    if j == acc.len() {
                        assert(fs[j] == acc2[j]);
                    }
                }
            }
        }
    }
}

/// A translated program is the host function `putc` followed by one
/// function for each declaration, in order, each with the declaration's
/// name and signature and code that ends with a return of register 0.
pub proof fn translated_program_layout<'src>(decls: Seq<Declaration<'src>>)
    ensures
        program_code(decls) matches Outcome::Done(fs) ==> {
            &&& fs.len() == decls.len() + 1
            &&& fs[0] == host_functions_view()[0]
            &&& fs[0].name == seq!['p', 'u', 't', 'c']
            &&& forall|i: int| 0 <= i < decls.len() ==> laid_out(#[trigger] fs[i + 1], decls[i])
        },
{
    let g = register_decls(decls, 0, host_defs());
    lemma_fns_code_layout(g, decls, 0, seq![]);
    if let Outcome::Done(fs) = fns_code(g, decls, 0, seq![]) {
        let all = host_functions_view() + fs;
        assert(all[0] == host_functions_view()[0]);
        assert forall|i: int| 0 <= i < decls.len() implies laid_out(#[trigger] all[i + 1], decls[i]) by {
            assert(all[i + 1] == fs[i]);
            assert(laid_out(fs[i], decls[i - 0 + 0]));
        }
    }
}

/* Translating expressions */

/// A negated number literal becomes one `Const` of the negated value at the
/// type expected (`i32` where none is): for a signed type or the
/// literal-integer type; an unsigned type or `bool` cannot be negated, and
/// unit and never have no negation. Negating 2^63 overflows, and is left
/// out of translation. (Constant indices are 16-bit: fewer than 2^16
/// constants are there.)
pub proof fn negated_literal_translation<'src>(
    g: GEnvV,
    l: LEnvV,
    c: Seq<u64>,
    t: u16,
    operand: Box<Spanned<Expression<'src>>>,
    n: u64,
    span: crate::syntax::lexer::Span,
    exp: Option<TypeName>,
)
    requires
        operand.0 == Expression::<'src>::Number(n),
        c.len() <= u16::MAX,
    ensures
        ({
            let se = Spanned(Expression::UniOp { operand, op: UniOp::Neg }, span);
            let x = match exp {
                Some(ty) => ty,
                None => TypeName::Primitive(PrimitiveType::I32),
            };
            let out = expr_code(g, l, c, t, se, exp);
            match x {
                TypeName::Primitive(p) => if p == PrimitiveType::I8 || p == PrimitiveType::I16 || p
                    == PrimitiveType::I32 || p == PrimitiveType::I64 || p == PrimitiveType::Integer {
                    if (n as i64) == i64::MIN {
                        out is Abort
                    } else {
                        let (c2, id) = with_const(c, (-(n as i64)) as u64);
                        &&& c2[id as int] == (-(n as i64)) as u64
                        &&& out == Outcome::Done((seq![Instruction(OpCode::Const, t, id, 0)], x, c2))
                    }
                } else {
                    out == Outcome::<crate::translate::model::ExprOut>::Fail((ErrorKindV::CannotNegate(p), span))
                },
                _ => out == Outcome::<crate::translate::model::ExprOut>::Fail(
                    (ErrorKindV::OperationUndefined(x), span),
                ),
            }
        }),
{
    reveal(expr_code);
    if (n as i64) != i64::MIN {
        add_const_law(c, (-(n as i64)) as u64);
    }
}

/// A call: an unknown name is reported, so is a count of arguments other
/// than the parameters'; otherwise the arguments are translated into the
/// registers after the target, and a `FnCall` of the function's id, with
/// the target and the count, follows; the call's type is the return type.
pub proof fn call_translation<'src>(
    g: GEnvV,
    l: LEnvV,
    c: Seq<u64>,
    t: u16,
    name: &'src str,
    args: Vec<Spanned<Expression<'src>>>,
    span: crate::syntax::lexer::Span,
    exp: Option<TypeName>,
)
    requires
        t < 0xffff,
    ensures
        ({
            let se = Spanned(Expression::FnCall { name, args }, span);
            let out = expr_code(g, l, c, t, se, exp);
            match lookup_func(g, name@) {
                None => out == Outcome::<crate::translate::model::ExprOut>::Fail(
                    (ErrorKindV::UndefinedFunction(name@), span),
                ),
                Some((sig, fid)) => if sig.0.len() != args@.len() {
                    out == Outcome::<crate::translate::model::ExprOut>::Fail(
                        (ErrorKindV::InvalidArgumentCount(sig.0.len() as usize, args@.len() as usize), span),
                    )
                } else {
                    match args_code(g, l, c, t + 1, sig.0, args, 0, seq![], span) {
                        Outcome::Done((code, c2)) => out == Outcome::Done(
                            (code.push(Instruction(OpCode::FnCall, fid, t, sig.0.len() as u16)), sig.1, c2),
                        ),
                        Outcome::Fail(e) => out == Outcome::<crate::translate::model::ExprOut>::Fail(e),
                        Outcome::Abort => out is Abort,
                    }
                },
            }
        }),
{
    reveal(expr_code);
}

/// A jump offset below 2^31, split into its halves, is read back whole.
proof fn lemma_jump_halves(n: usize)
    requires
        n < 0x8000_0000,
    ensures
        jump_offset(jump_hi(n), jump_lo(n)) == n,
{
    let m = n as u64;
    assert((((m as i32) >> 16i32) as u16) == (m >> 16u64) as u16) by (bit_vector)
        requires
            m < 0x8000_0000u64,
    ;
    assert((((m as i32) & 0xffffi32) as u16) == (m & 0xffffu64) as u16) by (bit_vector)
        requires
            m < 0x8000_0000u64,
    ;
    assert(((m >> 16u64) as u16) < 0x8000u16 && ((m >> 16u64) as u16) as u64 * 65536 + ((m & 0xffffu64) as u16) as u64 == m) by (bit_vector)
        requires
            m < 0x8000_0000u64,
    ;
}

/// The layout of the branches laid out so far: the `q`-th exit is a
/// placeholder after the `q`-th body, which its `JumpZ` immediately
/// precedes; exits come in increasing order.
pub open spec fn branches_laid(t: u16, bs: Seq<BranchOut>, code: Seq<Instruction>, exits: Seq<int>) -> bool {
    &&& exits.len() <= bs.len()
    &&& forall|q: int| 0 <= q < exits.len() ==> {
        let e = #[trigger] exits[q];
        let n = (bs[q].3.len() + 1) as usize;
        &&& 0 <= e - bs[q].3.len() - 1
        &&& e < code.len()
        &&& code[e] == Instruction(OpCode::Nop, 0, 0, 0)
        &&& code[e - bs[q].3.len() - 1] == Instruction(OpCode::JumpZ, t, jump_hi(n), jump_lo(n))
    }
    &&& forall|q: int, r: int| 0 <= q < r < exits.len() ==> exits[q] < exits[r]
}

proof fn lemma_lay_branches(
    t: u16,
    bs: Seq<BranchOut>,
    k: int,
    code: Seq<Instruction>,
    exits: Seq<int>,
    ty: Option<TypeName>,
)
    requires
        0 <= k <= bs.len(),
        exits.len() == k,
        branches_laid(t, bs, code, exits),
    ensures
        lay_branches(t, bs, k, code, exits, ty) matches Outcome::Done((code2, exits2, _)) ==> exits2.len()
            == bs.len() && branches_laid(t, bs, code2, exits2),
    decreases bs.len() - k,
{
    if k < bs.len() {
        let (cond, cty, cspan, body, bty, span) = bs[k];
        if cty == TypeName::Primitive(PrimitiveType::Bool) && body.len() + 1 <= usize::MAX {
            let n = (body.len() + 1) as usize;
            let code1 = (code + cond).push(Instruction(OpCode::JumpZ, t, jump_hi(n), jump_lo(n))) + body;
            let code2 = code1.push(Instruction(OpCode::Nop, 0, 0, 0));
            let exits2 = exits.push(code1.len() as int);
            assert forall|q: int| 0 <= q < exits2.len() implies {
                let e = #[trigger] exits2[q];
                let m = (bs[q].3.len() + 1) as usize;
                &&& 0 <= e - bs[q].3.len() - 1
                &&& e < code2.len()
                &&& code2[e] == Instruction(OpCode::Nop, 0, 0, 0)
                &&& code2[e - bs[q].3.len() - 1] == Instruction(OpCode::JumpZ, t, jump_hi(m), jump_lo(m))
            } by {
                if q < exits.len() {
                    let e = exits[q];
                    assert(exits2[q] == e);
                    assert(code2[e] == code[e]);
                    assert(code2[e - bs[q].3.len() - 1] == code[e - bs[q].3.len() - 1]);
                } else {
                    let z = (code.len() + cond.len()) as int;
                    assert(code2[z] == Instruction(OpCode::JumpZ, t, jump_hi(n), jump_lo(n)));
                }
            }
            if let Ok(ty2) = crate::translate::model::merge_branch(ty, bty, span) {
                lemma_lay_branches(t, bs, k + 1, code2, exits2, ty2);
            }
        }
    }
}

proof fn lemma_patch_exits(code: Seq<Instruction>, exits: Seq<int>, k: int)
    requires
        0 <= k <= exits.len(),
        forall|q: int| 0 <= q < exits.len() ==> 0 <= #[trigger] exits[q] < code.len(),
        forall|q: int, r: int| 0 <= q < r < exits.len() ==> exits[q] < exits[r],
    ensures
        ({
            let out = patch_exits(code, exits, k);
            &&& out.len() == code.len()
            &&& forall|q: int| k <= q < exits.len() ==> {
                let m = (code.len() - exits[q] - 1) as usize;
                out[#[trigger] exits[q]] == Instruction(OpCode::Jump, 0, jump_hi(m), jump_lo(m))
            }
            &&& forall|p: int| 0 <= p < code.len() && (forall|q: int| k <= q < exits.len() ==> exits[q] != p)
                ==> #[trigger] out[p] == code[p]
        }),
    decreases exits.len() - k,
{
    if k < exits.len() {
        let m = (code.len() - exits[k] - 1) as usize;
        let code2 = code.update(exits[k], Instruction(OpCode::Jump, 0, jump_hi(m), jump_lo(m)));
        lemma_patch_exits(code2, exits, k + 1);
        let out = patch_exits(code, exits, k);
        assert(out == patch_exits(code2, exits, k + 1));
        assert forall|p: int| 0 <= p < code.len() && (forall|q: int| k <= q < exits.len() ==> exits[q] != p)
            implies #[trigger] out[p] == code[p] by {
            assert(exits[k] != p);
            assert(forall|q: int| k + 1 <= q < exits.len() ==> exits[q] != p);
        }
        assert forall|q: int| k <= q < exits.len() implies {
            let m2 = (code.len() - exits[q] - 1) as usize;
            out[#[trigger] exits[q]] == Instruction(OpCode::Jump, 0, jump_hi(m2), jump_lo(m2))
        } by {
            if q == k {
                assert(forall|r: int| k + 1 <= r < exits.len() ==> exits[r] != exits[k]);
                assert(out[exits[k]] == code2[exits[k]]);
            }
        }
    }
}

/// The jumps of a translated `if`, where its code is shorter than 2^31
/// instructions: the `q`-th branch's `JumpZ`, tested on the target
/// register, lands just after that branch's exit jump, so that a false
/// condition skips the body and its exit; and every exit jump lands at the
/// end of the `if`'s code.
pub proof fn if_jumps_land<'src>(
    t: u16,
    bs: Seq<BranchOut>,
    els: Option<(Seq<Instruction>, TypeName, crate::syntax::lexer::Span)>,
    exp: Option<TypeName>,
    span: crate::syntax::lexer::Span,
)
    ensures
        assemble(t, bs, els, exp, span) matches Outcome::Done((code, _)) ==> code.len() < 0x8000_0000 ==> (
        lay_branches(t, bs, 0, seq![], seq![], exp) matches Outcome::Done((_, exits, _)) && exits.len()
            == bs.len() && forall|q: int|
            0 <= q < bs.len() ==> {
                let e = #[trigger] exits[q];
                let z = e - bs[q].3.len() - 1;
                &&& 0 <= z < e < code.len()
                &&& code[e].0 == OpCode::Jump
                &&& e + 1 + jump_offset(code[e].2, code[e].3) == code.len()
                &&& code[z].0 == OpCode::JumpZ
                &&& code[z].1 == t
                &&& z + 1 + jump_offset(code[z].2, code[z].3) == e + 1
            }),
{
    lemma_lay_branches(t, bs, 0, seq![], seq![], exp);
    if let Outcome::Done((code, _)) = assemble(t, bs, els, exp, span) {
        if code.len() < 0x8000_0000 {
            if let Outcome::Done((cl, exits, ty)) = lay_branches(t, bs, 0, seq![], seq![], exp) {
                let code2 = match els {
                    Some((ecode, _, _)) => cl + ecode,
                    None => cl,
                };
                assert(code == patch_exits(code2, exits, 0));
                assert forall|q: int| 0 <= q < exits.len() implies 0 <= #[trigger] exits[q] < code2.len() by {
                    assert(code2[exits[q]] == cl[exits[q]]);
                }
                lemma_patch_exits(code2, exits, 0);
                assert forall|q: int| 0 <= q < bs.len() implies {
                    let e = #[trigger] exits[q];
                    let z = e - bs[q].3.len() - 1;
                    &&& 0 <= z < e < code.len()
                    &&& code[e].0 == OpCode::Jump
                    &&& e + 1 + jump_offset(code[e].2, code[e].3) == code.len()
                    &&& code[z].0 == OpCode::JumpZ
                    &&& code[z].1 == t
                    &&& z + 1 + jump_offset(code[z].2, code[z].3) == e + 1
                } by {
                    let e = exits[q];
                    let z = e - bs[q].3.len() - 1;
                    let n = (bs[q].3.len() + 1) as usize;
                    let m = (code2.len() - e - 1) as usize;
                    assert(code2[z] == cl[z]);
                    assert forall|r: int| 0 <= r < exits.len() implies exits[r] != z by {
                        assert(code2[exits[r]] == cl[exits[r]]);
                    }
                    assert(code[z] == code2[z]);
                    lemma_jump_halves(n);
                    lemma_jump_halves(m);
                }
            }
        }
    }
}

/// The type an `if` settles on after its first `k` branches: the first
/// type other than `never` among the expected type and their bodies' types;
/// `never` where there is none.
pub open spec fn first_settled(exp: Option<TypeName>, bs: Seq<BranchOut>, k: int) -> TypeName
    decreases k,
{
    if k <= 0 {
        match exp {
            Some(ty) => ty,
            None => TypeName::Never,
        }
    } else {
        let p = first_settled(exp, bs, k - 1);
        if p == TypeName::Never {
            bs[k - 1].4
        } else {
            p
        }
    }
}

/// Whether the `k`-th body's type conflicts with the type settled before it.
pub open spec fn mismatch_at(exp: Option<TypeName>, bs: Seq<BranchOut>, k: int) -> bool {
    let p = first_settled(exp, bs, k);
    p != TypeName::Never && bs[k].4 != TypeName::Never && bs[k].4 != p
}

/// The running type of the branch layout stands for the settled type.
pub open spec fn stands_for(ty: Option<TypeName>, t: TypeName) -> bool {
    ty == Some(t) || (ty is None && t == TypeName::Never)
}

proof fn lemma_lay_types(
    t: u16,
    bs: Seq<BranchOut>,
    k: int,
    code: Seq<Instruction>,
    exits: Seq<int>,
    ty: Option<TypeName>,
    exp: Option<TypeName>,
)
    requires
        0 <= k <= bs.len(),
        stands_for(ty, first_settled(exp, bs, k)),
        forall|j: int|
            k <= j < bs.len() ==> (#[trigger] bs[j]).1 == TypeName::Primitive(PrimitiveType::Bool) && bs[j].3.len()
                + 1 <= usize::MAX,
    ensures
        (forall|j: int| k <= j < bs.len() ==> !mismatch_at(exp, bs, j)) ==> (lay_branches(
            t,
            bs,
            k,
            code,
            exits,
            ty,
        ) matches Outcome::Done((_, _, ty2)) && stands_for(ty2, first_settled(exp, bs, bs.len() as int)) && (k
            < bs.len() ==> ty2 is Some)),
        forall|j: int|
            k <= j < bs.len() && mismatch_at(exp, bs, j) && (forall|i: int| k <= i < j ==> !mismatch_at(exp, bs, i))
                ==> lay_branches(t, bs, k, code, exits, ty) == Outcome::<
                (Seq<Instruction>, Seq<int>, Option<TypeName>),
            >::Fail((ErrorKindV::MismatchedTypes(first_settled(exp, bs, j), bs[j].4), bs[j].5)),
    decreases bs.len() - k,
{
    if k < bs.len() {
        let (cond, cty, cspan, body, bty, span) = bs[k];
        assert(bs[k].1 == TypeName::Primitive(PrimitiveType::Bool));
        let n = (body.len() + 1) as usize;
        let code1 = (code + cond).push(Instruction(OpCode::JumpZ, t, jump_hi(n), jump_lo(n))) + body;
        let code2 = code1.push(Instruction(OpCode::Nop, 0, 0, 0));
        let exits2 = exits.push(code1.len() as int);
        match crate::translate::model::merge_branch(ty, bty, span) {
            Ok(ty2) => {
                assert(!mismatch_at(exp, bs, k));
                assert(stands_for(ty2, first_settled(exp, bs, k + 1)));
                lemma_lay_types(t, bs, k + 1, code2, exits2, ty2, exp);
                assert forall|j: int|
                    k <= j < bs.len() && mismatch_at(exp, bs, j) && (forall|i: int| k <= i < j ==> !mismatch_at(exp, bs, i))
                        implies lay_branches(t, bs, k, code, exits, ty) == Outcome::<
                        (Seq<Instruction>, Seq<int>, Option<TypeName>),
                    >::Fail((ErrorKindV::MismatchedTypes(first_settled(exp, bs, j), bs[j].4), bs[j].5)) by {
                    assert(j != k);
                    assert(forall|i: int| k + 1 <= i < j ==> !mismatch_at(exp, bs, i));
                }
                if k + 1 == bs.len() {
                    assert(ty2 is Some);
                }
            },
            Err(e) => {
                assert(mismatch_at(exp, bs, k));
            },
        }
    }
}

/// The type of an `if` without `else` whose conditions are all `bool`: the
/// first body whose type conflicts with the type settled before it (the
/// first other than `never` among the expected type and the earlier
/// bodies') is reported at that branch's span; otherwise the settled type
/// is the `if`'s where it is unit or never, and is reported against unit
/// where it is anything else.
pub proof fn if_without_else_type<'src>(
    t: u16,
    bs: Seq<BranchOut>,
    exp: Option<TypeName>,
    span: crate::syntax::lexer::Span,
)
    requires
        bs.len() > 0,
        forall|j: int|
            0 <= j < bs.len() ==> (#[trigger] bs[j]).1 == TypeName::Primitive(PrimitiveType::Bool) && bs[j].3.len()
                + 1 <= usize::MAX,
    ensures
        (forall|j: int| 0 <= j < bs.len() ==> !mismatch_at(exp, bs, j)) ==> {
            let tt = first_settled(exp, bs, bs.len() as int);
            if tt == TypeName::Unit || tt == TypeName::Never {
                assemble(t, bs, None, exp, span) matches Outcome::Done((_, ty)) && ty == tt
            } else {
                assemble(t, bs, None, exp, span) == Outcome::<(Seq<Instruction>, TypeName)>::Fail(
                    (ErrorKindV::MismatchedTypes(TypeName::Unit, tt), span),
                )
            }
        },
        forall|j: int|
            0 <= j < bs.len() && mismatch_at(exp, bs, j) && (forall|i: int| 0 <= i < j ==> !mismatch_at(exp, bs, i))
                ==> assemble(t, bs, None, exp, span) == Outcome::<(Seq<Instruction>, TypeName)>::Fail(
                (ErrorKindV::MismatchedTypes(first_settled(exp, bs, j), bs[j].4), bs[j].5),
            ),
{
    lemma_lay_types(t, bs, 0, seq![], seq![], exp, exp);
}

} // verus!
