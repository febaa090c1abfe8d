//! Character classification and UTF-8 helpers shared by the lexers, and
//! the writing of numbers in messages.
use vstd::prelude::*;
use vstd::utf8::*;
use vstd::string::StringSliceAdditionalSpecFns;

verus! {

broadcast use vstd::seq_lib::group_seq_properties;

/// Whether `c` is ASCII whitespace in the sense of `char::is_ascii_whitespace`:
/// space, horizontal tab, line feed, form feed or carriage return.
pub open spec fn is_ascii_ws(c: char) -> bool {
    c == ' ' || c == '\t' || c == '\n' || c == '\x0C' || c == '\r'
}

/// Executable form of [`is_ascii_ws`].
pub fn is_ascii_whitespace(c: char) -> (r: bool)
    ensures
        r == is_ascii_ws(c),
{
    c == ' ' || c == '\t' || c == '\n' || c == '\x0C' || c == '\r'
}

/// Whether `c` is one of the ASCII digits `0` to `9`.
pub open spec fn is_ascii_digit(c: char) -> bool {
    '0' <= c <= '9'
}

/// The numeric value of an ASCII digit.
pub open spec fn digit_value(c: char) -> int {
    (c as u32) as int - ('0' as u32) as int
}

/// Whether `c` may start an identifier: an ASCII letter or `_`.
pub open spec fn is_ident_start(c: char) -> bool {
    ('a' <= c <= 'z') || ('A' <= c <= 'Z') || c == '_'
}

/// The result of `char::is_numeric` on `c` (Unicode general categories Nd, Nl, No).
pub uninterp spec fn char_is_numeric(c: char) -> bool;

/// The result of `char::is_alphanumeric` on `c` (Unicode Alphabetic or numeric).
pub uninterp spec fn char_is_alphanumeric(c: char) -> bool;

/// Whether `c` is an ASCII letter or digit.
pub open spec fn is_ascii_alnum(c: char) -> bool {
    ('a' <= c <= 'z') || ('A' <= c <= 'Z') || is_ascii_digit(c)
}

/// `char::is_numeric` as this crate states it: on ASCII, exactly the
/// digits; elsewhere, what std's Unicode tables give.
pub open spec fn numeric(c: char) -> bool {
    if (c as u32) < 0x80 {
        is_ascii_digit(c)
    } else {
        char_is_numeric(c)
    }
}

/// `char::is_alphanumeric` as this crate states it: on ASCII, exactly the
/// letters and digits; elsewhere, what std's Unicode tables give.
pub open spec fn alphanumeric(c: char) -> bool {
    if (c as u32) < 0x80 {
        is_ascii_alnum(c)
    } else {
        char_is_alphanumeric(c)
    }
}

/// Calls `char::is_numeric`. The contract names its result; of the ASCII
/// characters it states, as std documents, that exactly the digits `0` to
/// `9` are numeric. Which other characters Unicode counts as numeric is left
/// to std.
#[verifier::external_body]
pub(crate) fn is_numeric(c: char) -> (r: bool)
    ensures
        r == char_is_numeric(c),
        (c as u32) < 0x80 ==> (r <==> is_ascii_digit(c)),
{
    c.is_numeric()
}

/// Calls `char::is_alphanumeric`. The contract names its result; of the
/// ASCII characters it states, as std documents, that exactly the letters
/// and digits are alphanumeric. Which other characters Unicode counts as
/// alphabetic or numeric is left to std.
#[verifier::external_body]
pub(crate) fn is_alphanumeric(c: char) -> (r: bool)
    ensures
        r == char_is_alphanumeric(c),
        (c as u32) < 0x80 ==> (r <==> is_ascii_alnum(c)),
{
    c.is_alphanumeric()
}

/// Whether two string slices hold the same characters, compared one by one.
pub(crate) fn str_eq(a: &str, b: &str) -> (r: bool)
    ensures
        r == (a@ == b@),
{
    let x = chars_of(a);
    let y = chars_of(b);
    if x.len() != y.len() {
        return false;
    }
    let mut k: usize = 0;
    while k < x.len()
        invariant
            x@ == a@,
            y@ == b@,
            x@.len() == y@.len(),
            k <= x@.len(),
            forall|i: int| 0 <= i < k ==> x@[i] == y@[i],
        decreases x@.len() - k,
    {
        if x[k] != y[k] {
            return false;
        }
        k += 1;
    }
    proof {
        assert(a@ =~= b@);
    }
    true
}

/// The number of bytes of the UTF-8 encoding of `s`.
pub(crate) fn str_byte_len(s: &str) -> (r: usize)
    ensures
        r == byte_len(s@),
{
    s.as_bytes().len()
}

/// Number of bytes in the UTF-8 encoding of `s`.
pub open spec fn byte_len(s: Seq<char>) -> int {
    encode_utf8(s).len() as int
}

/// Byte offset of the character at index `p` of `s`.
pub open spec fn byte_pos(s: Seq<char>, p: int) -> int {
    byte_len(s.take(p))
}

/// `char::len_utf8`: the number of bytes in the UTF-8 encoding of `c`.
pub fn len_utf8(c: char) -> (r: usize)
    ensures
        r == byte_len(seq![c]),
        1 <= r <= 4,
{
    proof {
        reveal_with_fuel(encode_utf8, 2);
        assert(seq![c].drop_first() =~= Seq::<char>::empty());
        char_is_scalar(c);
    }
    let v = c as u32;
    if v < 0x80 {
        1
    } else if v < 0x800 {
        2
    } else if v < 0x10000 {
        3
    } else {
        4
    }
}

/// Encoding a concatenation encodes each part in turn.
pub proof fn lemma_encode_concat(a: Seq<char>, b: Seq<char>)
    ensures
        encode_utf8(a + b) == encode_utf8(a) + encode_utf8(b),
    decreases a.len(),
{
    if a.len() == 0 {
        assert(a + b =~= b);
        assert(encode_utf8(a) =~= Seq::<u8>::empty());
        assert(encode_utf8(a) + encode_utf8(b) =~= encode_utf8(b));
    } else {
        lemma_encode_concat(a.drop_first(), b);
        assert((a + b).drop_first() =~= a.drop_first() + b);
        assert((a + b)[0] == a[0]);
        assert(encode_utf8(a + b) =~= encode_utf8(a) + encode_utf8(b));
    }
}

/// The byte offset of a prefix is a character boundary of the whole encoding.
pub proof fn lemma_prefix_boundary(a: Seq<char>, b: Seq<char>)
    ensures
        is_char_boundary(encode_utf8(a + b), encode_utf8(a).len() as int),
    decreases a.len(),
{
    broadcast use encode_utf8_valid_utf8;

    if a.len() == 0 {
        assert(encode_utf8(a) =~= Seq::<u8>::empty());
    } else {
        let ab = a + b;
        lemma_prefix_boundary(a.drop_first(), b);
        encode_utf8_first_scalar(ab);
        assert(ab.drop_first() =~= a.drop_first() + b);
        assert(ab[0] == a[0]);
        assert(pop_first_scalar(encode_utf8(ab)) =~= encode_utf8(a.drop_first() + b));
        assert(encode_utf8(a).len() == encode_scalar(a[0] as u32).len() + encode_utf8(
            a.drop_first(),
        ).len());
    }
}

/// Byte offsets grow with the character index by the width of each character.
pub proof fn lemma_byte_pos_step(s: Seq<char>, p: int)
    requires
        0 <= p < s.len(),
    ensures
        byte_pos(s, p + 1) == byte_pos(s, p) + byte_len(seq![s[p]]),
{
    assert(s.take(p + 1) =~= s.take(p) + seq![s[p]]);
    lemma_encode_concat(s.take(p), seq![s[p]]);
}

/// Byte offsets are monotonic in the character index.
pub proof fn lemma_byte_pos_mono(s: Seq<char>, p: int, q: int)
    requires
        0 <= p <= q <= s.len(),
    ensures
        byte_pos(s, p) <= byte_pos(s, q),
        byte_pos(s, q) - byte_pos(s, p) == byte_len(s.subrange(p, q)),
        byte_pos(s, q) <= byte_len(s),
{
    assert(s.take(q) =~= s.take(p) + s.subrange(p, q));
    lemma_encode_concat(s.take(p), s.subrange(p, q));
    assert(s =~= s.take(q) + s.skip(q));
    lemma_encode_concat(s.take(q), s.skip(q));
}

/// Each character is encoded in at least one byte.
pub proof fn lemma_byte_len_ge(s: Seq<char>)
    ensures
        byte_len(s) >= s.len(),
    decreases s.len(),
{
    if s.len() > 0 {
        lemma_byte_len_ge(s.drop_first());
        char_is_scalar(s[0]);
    }
}

/// A run of ASCII characters takes one byte per character.
pub proof fn lemma_byte_len_ascii(s: Seq<char>)
    requires
        forall|i: int| 0 <= i < s.len() ==> (s[i] as u32) < 0x80,
    ensures
        byte_len(s) == s.len(),
    decreases s.len(),
{
    if s.len() > 0 {
        lemma_byte_len_ascii(s.drop_first());
    }
}

/// The characters of `s`, collected into a vector.
pub fn chars_of(s: &str) -> (v: Vec<char>)
    ensures
        v@ == s@,
{
    let mut v: Vec<char> = Vec::new();
    for c in it: s.chars()
        invariant
            v@ == it.seq().take(it.index() as int),
            it.seq() == s@,
    {
        v.push(c);
    }
    v
}

/// The part of `source` between the character indices `i` and `j`, where
/// `bi` and `bj` are the byte offsets of those indices.
pub fn slice_chars<'a>(
    source: &'a str,
    Ghost(i): Ghost<int>,
    Ghost(j): Ghost<int>,
    bi: usize,
    bj: usize,
) -> (r: &'a str)
    requires
        0 <= i <= j <= source@.len(),
        bi == byte_pos(source@, i),
        bj == byte_pos(source@, j),
    ensures
        r@ == source@.subrange(i, j),
{
    let ghost s = source@;
    proof {
        assert(s =~= s.take(i) + s.skip(i));
        lemma_prefix_boundary(s.take(i), s.skip(i));
        lemma_encode_concat(s.take(i), s.skip(i));
        lemma_byte_pos_mono(s, i, j);
        assert(s.skip(i) =~= s.subrange(i, j) + s.skip(j));
        lemma_prefix_boundary(s.subrange(i, j), s.skip(j));
        lemma_encode_concat(s.subrange(i, j), s.skip(j));
    }
    let (_, rest) = source.split_at(bi);
    proof {
        assert(rest.spec_bytes() =~= encode_utf8(s.skip(i)));
        assert(encode_utf8(rest@) == encode_utf8(s.skip(i)));
        encode_utf8_decode_utf8(rest@);
        encode_utf8_decode_utf8(s.skip(i));
        assert(rest@ == s.skip(i));
    }
    let (piece, _) = rest.split_at(bj - bi);
    proof {
        assert(piece.spec_bytes() =~= encode_utf8(s.subrange(i, j)));
        encode_utf8_decode_utf8(piece@);
        encode_utf8_decode_utf8(s.subrange(i, j));
    }
    piece
}

/// Calls `String::push`, which appends the character `c` to the string.
#[verifier::external_body]
pub(crate) fn push_char(s: &mut String, c: char)
    ensures
        final(s)@ == old(s)@.push(c),
{
    s.push(c);
}

/* Numbers in text */

/// The digit for `d`, below sixteen: `0` to `9`, then `a` to `f`.
pub open spec fn digit_char(d: int) -> char {
    seq!['0', '1', '2', '3', '4', '5', '6', '7', '8', '9', 'a', 'b', 'c', 'd', 'e', 'f'][d]
}

/// `n` in decimal, without leading zeros.
pub open spec fn decimal(n: nat) -> Seq<char>
    decreases n,
{
    if n < 10 {
        seq![digit_char(n as int)]
    } else {
        decimal(n / 10).push(digit_char((n % 10) as int))
    }
}

/// `n` in decimal, with a minus sign where it is negative.
pub open spec fn signed_decimal(n: int) -> Seq<char> {
    if n < 0 {
        seq!['-'] + decimal((-n) as nat)
    } else {
        decimal(n as nat)
    }
}

/// `n` in lowercase hexadecimal, without leading zeros.
pub open spec fn hex(n: nat) -> Seq<char>
    decreases n,
{
    if n < 16 {
        seq![digit_char(n as int)]
    } else {
        hex(n / 16).push(digit_char((n % 16) as int))
    }
}

/// `n` in lowercase hexadecimal, right-aligned with spaces to `width`
/// characters.
pub open spec fn hex_padded(n: nat, width: nat) -> Seq<char> {
    let h = hex(n);
    if h.len() < width {
        Seq::new((width - h.len()) as nat, |i: int| ' ') + h
    } else {
        h
    }
}

fn digit_of(d: u64) -> (r: char)
    requires
        d < 16,
    ensures
        r == digit_char(d as int),
{
    match d {
        0 => '0',
        1 => '1',
        2 => '2',
        3 => '3',
        4 => '4',
        5 => '5',
        6 => '6',
        7 => '7',
        8 => '8',
        9 => '9',
        10 => 'a',
        11 => 'b',
        12 => 'c',
        13 => 'd',
        14 => 'e',
        _ => 'f',
    }
}

/// Appends `n` in decimal.
pub fn push_decimal(s: &mut String, n: u64)
    ensures
        final(s)@ == old(s)@ + decimal(n as nat),
    decreases n,
{
    if n >= 10 {
        push_decimal(s, n / 10);
    }
    push_char(s, digit_of(n % 10));
    proof {
        if n >= 10 {
            assert(old(s)@ + decimal(n as nat) =~= old(s)@ + decimal((n / 10) as nat) + seq![digit_char((n % 10) as int)]);
        } else {
            assert(old(s)@ + decimal(n as nat) =~= old(s)@.push(digit_char(n as int)));
        }
    }
}

/// Appends `n` in decimal, with a minus sign where it is negative.
pub fn push_signed_decimal(s: &mut String, n: i64)
    ensures
        final(s)@ == old(s)@ + signed_decimal(n as int),
{
    if n < 0 {
        push_char(s, '-');
        let m: u64 = if n == i64::MIN {
            0x8000_0000_0000_0000u64
        } else {
            (-n) as u64
        };
        push_decimal(s, m);
        proof {
            assert(final(s)@ =~= old(s)@ + signed_decimal(n as int));
        }
    } else {
        push_decimal(s, n as u64);
    }
}

/// Appends `n` in lowercase hexadecimal.
fn push_hex(s: &mut String, n: u64)
    ensures
        final(s)@ == old(s)@ + hex(n as nat),
    decreases n,
{
    if n >= 16 {
        push_hex(s, n / 16);
    }
    push_char(s, digit_of(n % 16));
    proof {
        if n >= 16 {
            assert(old(s)@ + hex(n as nat) =~= old(s)@ + hex((n / 16) as nat) + seq![digit_char((n % 16) as int)]);
        } else {
            assert(old(s)@ + hex(n as nat) =~= old(s)@.push(digit_char(n as int)));
        }
    }
}

/// The number of hexadecimal digits of `n`.
fn hex_len(n: u64) -> (r: usize)
    ensures
        r == hex(n as nat).len(),
        r <= 16,
    decreases n,
{
    if n >= 16 {
        let k = hex_len(n / 16);
        proof {
            lemma_hex_len_bound(n as nat);
        }
        k + 1
    } else {
        1
    }
}

/// Sixteen to the power `k`.
spec fn pow16(k: nat) -> nat
    decreases k,
{
    if k == 0 {
        1
    } else {
        16 * pow16((k - 1) as nat)
    }
}

/// A number below 16^k has at most k hexadecimal digits.
proof fn lemma_hex_digits(n: nat, k: nat)
    requires
        k >= 1,
        n < pow16(k),
    ensures
        hex(n).len() <= k,
    decreases n,
{
    if n >= 16 {
        assert(k >= 2) by {
            if k == 1 {
                assert(pow16(0) == 1);
            }
        }
        assert(n / 16 < pow16((k - 1) as nat));
        lemma_hex_digits(n / 16, (k - 1) as nat);
    }
}

proof fn lemma_hex_len_bound(n: nat)
    ensures
        n <= u64::MAX ==> hex(n).len() <= 16,
{
    if n <= u64::MAX {
        assert(pow16(16) == 0x1_0000_0000_0000_0000) by {
            reveal_with_fuel(pow16, 17);
        }
        lemma_hex_digits(n, 16);
    }
}

/// Appends `n` in lowercase hexadecimal, right-aligned with spaces to
/// `width` characters.
pub fn push_hex_padded(s: &mut String, n: u64, width: usize)
    ensures
        final(s)@ == old(s)@ + hex_padded(n as nat, width as nat),
{
    let len = hex_len(n);
    let mut k: usize = len;
    while k < width
        invariant
            len == hex(n as nat).len(),
            len <= k <= width || (k == len && width < len),
            s@ == old(s)@ + Seq::new((k - len) as nat, |i: int| ' '),
        decreases width - k,
    {
        push_char(s, ' ');
        k += 1;
        proof {
            assert(s@ =~= old(s)@ + Seq::new((k - len) as nat, |i: int| ' '));
        }
    }
    push_hex(s, n);
    proof {
        if len < width {
            assert(final(s)@ =~= old(s)@ + hex_padded(n as nat, width as nat));
        } else {
            assert(final(s)@ =~= old(s)@ + hex_padded(n as nat, width as nat));
        }
    }
}

} // verus!
