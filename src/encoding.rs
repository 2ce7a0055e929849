//! Standard padded base64, as a statement of what the encoder produces and of how it
//! decodes back.
use vstd::prelude::*;

verus! {

/// The character of a six-bit value in the standard alphabet.
pub open spec fn b64_char(n: int) -> char {
    if n < 26 {
        ((65 + n) as u8) as char
    } else if n < 52 {
        ((71 + n) as u8) as char
    } else if n < 62 {
        ((n - 4) as u8) as char
    } else if n == 62 {
        '+'
    } else {
        '/'
    }
}

/// The six-bit value of a character of the standard alphabet.
pub open spec fn b64_value(c: char) -> int {
    if 'A' <= c && c <= 'Z' {
        c as int - 65
    } else if 'a' <= c && c <= 'z' {
        c as int - 71
    } else if '0' <= c && c <= '9' {
        c as int + 4
    } else if c == '+' {
        62
    } else {
        63
    }
}

/// The standard, padded base64 encoding of a byte sequence: each group of three bytes
/// gives four characters, and a last group of one or two bytes is padded with `=`.
pub open spec fn base64_of(b: Seq<u8>) -> Seq<char>
    decreases b.len(),
{
    if b.len() == 0 {
        Seq::empty()
    } else {
        let x0 = b[0] as int;
        let x1 = if b.len() > 1 { b[1] as int } else { 0 };
        let x2 = if b.len() > 2 { b[2] as int } else { 0 };
        let c0 = b64_char(x0 / 4);
        let c1 = b64_char((x0 % 4) * 16 + x1 / 16);
        let c2 = b64_char((x1 % 16) * 4 + x2 / 64);
        let c3 = b64_char(x2 % 64);
        if b.len() == 1 {
            seq![c0, c1, '=', '=']
        } else if b.len() == 2 {
            seq![c0, c1, c2, '=']
        } else {
            seq![c0, c1, c2, c3] + base64_of(b.subrange(3, b.len() as int))
        }
    }
}

/// The bytes that a padded base64 text decodes to.
pub open spec fn base64_decoded(t: Seq<char>) -> Seq<u8>
    decreases t.len(),
{
    if t.len() < 4 {
        Seq::empty()
    } else {
        let v0 = b64_value(t[0]);
        let v1 = b64_value(t[1]);
        let v2 = b64_value(t[2]);
        let v3 = b64_value(t[3]);
        let group = if t[2] == '=' {
            seq![(v0 * 4 + v1 / 16) as u8]
        } else if t[3] == '=' {
            seq![(v0 * 4 + v1 / 16) as u8, ((v1 % 16) * 16 + v2 / 4) as u8]
        } else {
            seq![(v0 * 4 + v1 / 16) as u8, ((v1 % 16) * 16 + v2 / 4) as u8, ((v2 % 4) * 64 + v3) as u8]
        };
        group + base64_decoded(t.subrange(4, t.len() as int))
    }
}

/// A character of base64 text: of the alphabet, or `=`.
pub open spec fn base64_text_char(c: char) -> bool {
    ('A' <= c && c <= 'Z') || ('a' <= c && c <= 'z') || ('0' <= c && c <= '9') || c == '+' || c == '/'
        || c == '='
}

proof fn lemma_b64_char(n: int)
    requires
        0 <= n < 64,
    ensures
        b64_value(b64_char(n)) == n,
        b64_char(n) != '=',
        base64_text_char(b64_char(n)),
{
}

proof fn lemma_group(x0: int, x1: int, x2: int)
    requires
        0 <= x0 < 256,
        0 <= x1 < 256,
        0 <= x2 < 256,
    ensures
        0 <= x0 / 4 < 64,
        0 <= (x0 % 4) * 16 + x1 / 16 < 64,
        0 <= (x1 % 16) * 4 + x2 / 64 < 64,
        0 <= x2 % 64 < 64,
        (x0 / 4) * 4 + ((x0 % 4) * 16 + x1 / 16) / 16 == x0,
        (((x0 % 4) * 16 + x1 / 16) % 16) * 16 + ((x1 % 16) * 4 + x2 / 64) / 4 == x1,
        (((x1 % 16) * 4 + x2 / 64) % 4) * 64 + x2 % 64 == x2,
{
    assert(((x0 % 4) * 16 + x1 / 16) / 16 == x0 % 4) by (nonlinear_arith)
        requires 0 <= x0 % 4 < 4, 0 <= x1 / 16 < 16;
    assert(((x0 % 4) * 16 + x1 / 16) % 16 == x1 / 16) by (nonlinear_arith)
        requires 0 <= x0 % 4 < 4, 0 <= x1 / 16 < 16;
    assert(((x1 % 16) * 4 + x2 / 64) / 4 == x1 % 16) by (nonlinear_arith)
        requires 0 <= x1 % 16 < 16, 0 <= x2 / 64 < 4;
    assert(((x1 % 16) * 4 + x2 / 64) % 4 == x2 / 64) by (nonlinear_arith)
        requires 0 <= x1 % 16 < 16, 0 <= x2 / 64 < 4;
}

/// Decoding the base64 encoding of bytes gives the bytes back, and the encoding holds only
/// characters of the alphabet and `=`.
pub proof fn lemma_base64_round_trip(b: Seq<u8>)
    ensures
        base64_decoded(base64_of(b)) == b,
        forall|i: int| 0 <= i < base64_of(b).len() ==> base64_text_char(#[trigger] base64_of(b)[i]),
    decreases b.len(),
{
    if b.len() == 0 {
        assert(base64_decoded(base64_of(b)) =~= b);
    } else {
        let x0 = b[0] as int;
        let x1 = if b.len() > 1 { b[1] as int } else { 0 };
        let x2 = if b.len() > 2 { b[2] as int } else { 0 };
        lemma_group(x0, x1, x2);
        lemma_b64_char(x0 / 4);
        lemma_b64_char((x0 % 4) * 16 + x1 / 16);
        lemma_b64_char((x1 % 16) * 4 + x2 / 64);
        lemma_b64_char(x2 % 64);
        let t = base64_of(b);
        assert(b64_value(t[0]) == x0 / 4);
        assert(b64_value(t[1]) == (x0 % 4) * 16 + x1 / 16);
        if b.len() == 1 {
            assert(t.subrange(4, t.len() as int) =~= Seq::<char>::empty());
            assert(base64_decoded(t.subrange(4, t.len() as int)) =~= Seq::<u8>::empty());
            assert(base64_decoded(t)[0] == b[0]);
            assert(base64_decoded(t) =~= b);
        } else if b.len() == 2 {
            assert(b64_value(t[2]) == (x1 % 16) * 4 + x2 / 64);
            assert(t.subrange(4, t.len() as int) =~= Seq::<char>::empty());
            assert(base64_decoded(t.subrange(4, t.len() as int)) =~= Seq::<u8>::empty());
            assert(base64_decoded(t)[0] == b[0]);
            assert(base64_decoded(t)[1] == b[1]);
            assert(base64_decoded(t) =~= b);
        } else {
            assert(b64_value(t[2]) == (x1 % 16) * 4 + x2 / 64);
            assert(b64_value(t[3]) == x2 % 64);
            let rest = b.subrange(3, b.len() as int);
            lemma_base64_round_trip(rest);
            assert(t.subrange(4, t.len() as int) =~= base64_of(rest));
            assert(base64_decoded(t) =~= b);
            assert forall|i: int| 0 <= i < t.len() implies base64_text_char(#[trigger] t[i]) by {
                if i >= 4 {
                    assert(t[i] == base64_of(rest)[i - 4]);
                }
            }
        }
    }
}

} // verus!
