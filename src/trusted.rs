//! The calls this library makes into std functions without a specification in vstd,
//! and into serde_json and base64, each with the contract it is trusted to meet.
use vstd::prelude::*;
use vstd::utf8::*;
use crate::encoding::base64_of;
use crate::text::{digit_char, float_text};

verus! {

/// What `String::from_utf8_lossy` makes of a byte sequence.
pub uninterp spec fn lossy_text(b: Seq<u8>) -> Seq<char>;

/// Whether serde_json reads a text as one JSON value.
pub uninterp spec fn json_text_valid(s: Seq<char>) -> bool;

/// A lower-case hexadecimal digit.
pub open spec fn hex_char(n: nat) -> char {
    if n < 10 {
        digit_char(n)
    } else if n == 10 { 'a' }
    else if n == 11 { 'b' }
    else if n == 12 { 'c' }
    else if n == 13 { 'd' }
    else if n == 14 { 'e' }
    else { 'f' }
}

/// How one character stands inside a JSON string literal: a quote, a backslash and the
/// control characters are escaped, short forms first; any other character stands as it is.
pub open spec fn escaped_char(c: char) -> Seq<char> {
    if c == '"' {
        seq!['\\', '"']
    } else if c == '\\' {
        seq!['\\', '\\']
    } else if c == '\u{8}' {
        seq!['\\', 'b']
    } else if c == '\t' {
        seq!['\\', 't']
    } else if c == '\n' {
        seq!['\\', 'n']
    } else if c == '\u{c}' {
        seq!['\\', 'f']
    } else if c == '\r' {
        seq!['\\', 'r']
    } else if (c as u32) < 0x20 {
        seq!['\\', 'u', '0', '0', hex_char((c as u32 / 16) as nat), hex_char((c as u32 % 16) as nat)]
    } else {
        seq![c]
    }
}

/// The escaped characters of a text.
pub open spec fn escaped_text(s: Seq<char>) -> Seq<char>
    decreases s.len(),
{
    if s.len() == 0 {
        Seq::empty()
    } else {
        escaped_text(s.drop_last()) + escaped_char(s.last())
    }
}

/// A text whose characters are all of base64 text stands in a JSON string literal as it is.
pub proof fn lemma_base64_text_unescaped(t: Seq<char>)
    requires
        forall|i: int| 0 <= i < t.len() ==> crate::encoding::base64_text_char(#[trigger] t[i]),
    ensures
        escaped_text(t) == t,
    decreases t.len(),
{
    if t.len() > 0 {
        let u = t.drop_last();
        assert forall|i: int| 0 <= i < u.len() implies crate::encoding::base64_text_char(#[trigger] u[i]) by {
            assert(u[i] == t[i]);
        }
        lemma_base64_text_unescaped(u);
        assert(crate::encoding::base64_text_char(t[t.len() - 1]));
        assert(escaped_char(t.last()) == seq![t.last()]);
        assert(escaped_text(t) =~= t);
    }
}

/// The JSON string literal of a text, as serde_json writes it.
pub open spec fn json_quoted(s: Seq<char>) -> Seq<char> {
    seq!['"'] + escaped_text(s) + seq!['"']
}

/// Relies on `std::str::from_utf8`: it accepts exactly the valid UTF-8 sequences
/// and decodes them.
#[verifier::external_body]
pub(crate) fn decode_utf8_text(b: &[u8]) -> (r: Option<String>)
    ensures
        r is Some <==> valid_utf8(b@),
        r matches Some(s) ==> s@ == decode_utf8(b@),
{
    std::str::from_utf8(b).ok().map(|s| s.to_string())
}

/// Relies on `String::from_utf8_lossy`: its result depends on the bytes alone.
#[verifier::external_body]
pub(crate) fn lossy_decode(b: &[u8]) -> (r: String)
    ensures
        r@ == lossy_text(b@),
{
    String::from_utf8_lossy(b).to_string()
}

/// Relies on `str::parse` of a double, as its documentation gives the grammar of the
/// texts it accepts. The parsed value is handed to `serde_json::Number::from_f64` only so
/// that the parse targets a double; whether it parsed is all that is kept.
#[verifier::external_body]
pub(crate) fn parses_as_float(s: &str) -> (r: bool)
    ensures
        r == float_text(s@),
{
    s.parse().map(serde_json::Number::from_f64).is_ok()
}

/// Relies on `serde_json::from_str::<serde_json::Value>`: whether the text is read as
/// one JSON value.
#[verifier::external_body]
pub(crate) fn is_json_text(s: &str) -> (r: bool)
    ensures
        r == json_text_valid(s@),
{
    serde_json::from_str::<serde_json::Value>(s).is_ok()
}

/// Relies on `serde_json::to_string` on a text: the text between quotes, each character
/// escaped as `format_escaped_str_contents` and `write_char_escape` do. It writes into a
/// `Vec<u8>`, whose writes do not fail, so the error arm is not taken.
#[verifier::external_body]
pub(crate) fn quote_json(s: &str) -> (r: String)
    ensures
        r@ == json_quoted(s@),
{
    match serde_json::to_string(s) {
        Ok(q) => q,
        Err(_) => String::new(),
    }
}

/// Relies on `base64::Engine::encode` with the standard padded alphabet, which writes each
/// group of three bytes as four characters and pads the last group; it panics only
/// where the encoded length overflows `usize`, which the bound rules out.
#[verifier::external_body]
pub(crate) fn base64_encode(b: &[u8]) -> (r: String)
    requires
        b@.len() <= isize::MAX,
    ensures
        r@ == base64_of(b@),
{
    base64::Engine::encode(&base64::engine::general_purpose::STANDARD, b)
}

/// A message received on a subscription connection.
#[verifier::external_type_specification]
#[verifier::external_body]
pub struct ExMsg(redis::Msg);

/// The channel name that `redis::Msg::get_channel_name` gives for a message.
pub uninterp spec fn channel_of_msg(m: redis::Msg) -> Seq<char>;

/// The payload bytes that `redis::Msg::get_payload` gives for a message, if it reads.
pub uninterp spec fn payload_of_msg(m: redis::Msg) -> Option<Seq<u8>>;

/// The pattern that `redis::Msg::get_pattern` gives for a message, if it has one.
pub uninterp spec fn pattern_of_msg(m: redis::Msg) -> Option<Seq<char>>;

/// Relies on `redis::Msg::get_channel_name`: the channel the message came on, which
/// depends on the message alone.
#[verifier::external_body]
pub(crate) fn msg_channel(m: &redis::Msg) -> (r: String)
    ensures
        r@ == channel_of_msg(*m),
{
    m.get_channel_name().to_string()
}

/// Relies on `redis::Msg::get_payload` read as bytes; none where the payload is not a
/// byte string; it depends on the message alone. A `Vec` holds at most `isize::MAX` bytes.
#[verifier::external_body]
pub(crate) fn msg_payload(m: &redis::Msg) -> (r: Option<Vec<u8>>)
    ensures
        r matches Some(b) ==> b@.len() <= isize::MAX && payload_of_msg(*m) == Some(b@),
        r is None ==> payload_of_msg(*m) is None,
{
    m.get_payload::<Vec<u8>>().ok()
}

/// Relies on `redis::Msg::get_pattern` read as text; none for a message of a plain
/// channel subscription; it depends on the message alone.
#[verifier::external_body]
pub(crate) fn msg_pattern(m: &redis::Msg) -> (r: Option<String>)
    ensures
        r matches Some(p) ==> pattern_of_msg(*m) == Some(p@),
        r is None ==> pattern_of_msg(*m) is None,
{
    m.get_pattern::<String>().ok()
}

} // verus!
