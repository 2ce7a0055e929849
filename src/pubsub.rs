//! Publish/subscribe streaming: the line format of each event, the encoding of message
//! payloads, and the session that bridges a subscription connection to an event stream.
use vstd::prelude::*;
use vstd::string::*;
use vstd::utf8::*;
use crate::encoding::{base64_decoded, base64_of, lemma_base64_round_trip};
use crate::text::{decimal_of, decimal_text};
use crate::trusted::{
    base64_encode, decode_utf8_text, lemma_base64_text_unescaped, is_json_text, json_quoted, json_text_valid,
    channel_of_msg, msg_channel, msg_pattern, msg_payload, pattern_of_msg, payload_of_msg,
    quote_json,
};

verus! {

/// An event of a publish/subscribe stream.
pub enum PubSubMessage {
    Message { channel: String, payload: String },
    PMessage { pattern: String, channel: String, payload: String },
    Subscribe { count: usize },
    Unsubscribe { count: usize },
    PSubscribe { count: usize },
    PUnsubscribe { count: usize },
}

/// The line of an event: its type and fields, joined by commas.
pub open spec fn sse_line(m: PubSubMessage) -> Seq<char> {
    match m {
        PubSubMessage::Message { channel, payload } => "message,"@ + channel@ + ","@ + payload@,
        PubSubMessage::PMessage { pattern, channel, payload } => "pmessage,"@ + pattern@ + ","@
            + channel@ + ","@ + payload@,
        PubSubMessage::Subscribe { count } => "subscribe,"@ + decimal_of(count as nat),
        PubSubMessage::Unsubscribe { count } => "unsubscribe,"@ + decimal_of(count as nat),
        PubSubMessage::PSubscribe { count } => "psubscribe,"@ + decimal_of(count as nat),
        PubSubMessage::PUnsubscribe { count } => "punsubscribe,"@ + decimal_of(count as nat),
    }
}

/// Formats an event as one line of the stream.
pub fn format_sse_message(msg: &PubSubMessage) -> (r: String)
    ensures
        r@ == sse_line(*msg),
{
    match msg {
        PubSubMessage::Message { channel, payload } => {
            let mut r = String::from_str("message,");
            r.append(channel.as_str());
            r.append(",");
            r.append(payload.as_str());
            r
        },
        PubSubMessage::PMessage { pattern, channel, payload } => {
            let mut r = String::from_str("pmessage,");
            r.append(pattern.as_str());
            r.append(",");
            r.append(channel.as_str());
            r.append(",");
            r.append(payload.as_str());
            r
        },
        PubSubMessage::Subscribe { count } => {
            let mut r = String::from_str("subscribe,");
            r.append(decimal_text(*count).as_str());
            r
        },
        PubSubMessage::Unsubscribe { count } => {
            let mut r = String::from_str("unsubscribe,");
            r.append(decimal_text(*count).as_str());
            r
        },
        PubSubMessage::PSubscribe { count } => {
            let mut r = String::from_str("psubscribe,");
            r.append(decimal_text(*count).as_str());
            r
        },
        PubSubMessage::PUnsubscribe { count } => {
            let mut r = String::from_str("punsubscribe,");
            r.append(decimal_text(*count).as_str());
            r
        },
    }
}

/// The payload field for raw message bytes: UTF-8 text that is JSON as it is, other
/// UTF-8 text as a JSON string, and bytes that are not UTF-8 as the JSON string of
/// their base64 encoding.
pub open spec fn payload_text(b: Seq<u8>) -> Seq<char> {
    if valid_utf8(b) {
        let s = decode_utf8(b);
        if json_text_valid(s) {
            s
        } else {
            json_quoted(s)
        }
    } else {
        json_quoted(base64_of(b))
    }
}

/// Encodes message bytes as the payload field of a line.
pub fn payload_to_json_string(payload: &[u8]) -> (r: String)
    requires
        payload@.len() <= isize::MAX,
    ensures
        r@ == payload_text(payload@),
{
    match decode_utf8_text(payload) {
        Some(s) => {
            if is_json_text(s.as_str()) {
                s
            } else {
                quote_json(s.as_str())
            }
        },
        None => {
            let encoded = base64_encode(payload);
            quote_json(encoded.as_str())
        },
    }
}

/// Bytes that are not UTF-8 reach the line as the JSON string literal of their base64
/// encoding; text is never base64-encoded.
pub proof fn lemma_binary_payload_is_quoted_base64(b: Seq<u8>)
    ensures
        !valid_utf8(b) ==> payload_text(b) == json_quoted(base64_of(b)),
        valid_utf8(b) ==> payload_text(b) == decode_utf8(b) || payload_text(b) == json_quoted(decode_utf8(b)),
{
}

/// Bytes that are not UTF-8 reach the line as their base64 encoding between quotes, and
/// taking the quotes off and decoding gives the bytes back.
pub proof fn lemma_binary_payload_round_trip(b: Seq<u8>)
    requires
        !valid_utf8(b),
    ensures
        payload_text(b) == seq!['"'] + base64_of(b) + seq!['"'],
        base64_decoded(payload_text(b).subrange(1, payload_text(b).len() - 1)) == b,
{
    lemma_base64_round_trip(b);
    lemma_base64_text_unescaped(base64_of(b));
    let p = payload_text(b);
    assert(p.subrange(1, p.len() - 1) =~= base64_of(b));
}

/// The bytes held, if any.
pub open spec fn bytes_of(o: Option<Vec<u8>>) -> Option<Seq<u8>> {
    match o {
        Some(b) => Some(b@),
        None => None,
    }
}

/// The text held, if any.
pub open spec fn text_of(o: Option<String>) -> Option<Seq<char>> {
    match o {
        Some(s) => Some(s@),
        None => None,
    }
}

/// The event that a received message gives, from its channel, its payload bytes (none
/// where they could not be read) and its pattern (none for a plain subscription).
pub open spec fn push_event_line(
    channel: Seq<char>,
    payload: Option<Seq<u8>>,
    pattern: Option<Seq<char>>,
) -> Option<Seq<char>> {
    match payload {
        None => None,
        Some(b) => match pattern {
            Some(p) => Some("pmessage,"@ + p + ","@ + channel + ","@ + payload_text(b)),
            None => Some("message,"@ + channel + ","@ + payload_text(b)),
        },
    }
}

/// Classifies a received message: a message that carries a pattern is a pattern message,
/// any other a plain one; without readable payload bytes there is no event.
pub fn classify_push(channel: String, payload: Option<Vec<u8>>, pattern: Option<String>) -> (r: Option<PubSubMessage>)
    requires
        payload matches Some(b) ==> b@.len() <= isize::MAX,
    ensures
        payload is None <==> r is None,
        r matches Some(m) ==> push_event_line(
            channel@,
            bytes_of(payload),
            text_of(pattern),
        ) == Some(sse_line(m)),
        r matches Some(m) ==> (pattern is Some <==> m is PMessage) && (pattern is None <==> m is Message),
        r matches Some(PubSubMessage::PMessage { pattern: p, channel: c, payload: q }) ==> pattern
            == Some(p) && c == channel && (payload matches Some(b) && q@ == payload_text(b@)),
        r matches Some(PubSubMessage::Message { channel: c, payload: q }) ==> c == channel && (
        payload matches Some(b) && q@ == payload_text(b@)),
{
    match payload {
        None => None,
        Some(b) => {
            let text = payload_to_json_string(b.as_slice());
            match pattern {
                Some(p) => Some(PubSubMessage::PMessage { pattern: p, channel, payload: text }),
                None => Some(PubSubMessage::Message { channel, payload: text }),
            }
        },
    }
}

/// The segments of a path between its `/` separators, empty ones included.
pub open spec fn path_segments(s: Seq<char>) -> Seq<Seq<char>>
    decreases s.len(),
{
    if s.len() == 0 {
        seq![Seq::empty()]
    } else {
        let p = path_segments(s.drop_last());
        if s.last() == '/' {
            p.push(Seq::empty())
        } else {
            p.update(p.len() - 1, p.last().push(s.last()))
        }
    }
}

/// The non-empty texts of a list, in order.
pub open spec fn non_empty_texts(segs: Seq<Seq<char>>) -> Seq<Seq<char>>
    decreases segs.len(),
{
    if segs.len() == 0 {
        Seq::empty()
    } else {
        let rest = non_empty_texts(segs.drop_last());
        if segs.last().len() > 0 {
            rest.push(segs.last())
        } else {
            rest
        }
    }
}

/// The names a stream path holds: its non-empty segments, in order.
pub fn names_from_path(path: &str) -> (r: Vec<String>)
    ensures
        r@.map_values(|n: String| n@) == non_empty_texts(path_segments(path@)),
{
    let n = path.unicode_len();
    let ghost s = path@;
    let ghost mut segs: Seq<Seq<char>> = Seq::empty();
    let mut out: Vec<String> = Vec::new();
    let mut start: usize = 0;
    let mut i: usize = 0;
    assert(s.subrange(0, 0) =~= Seq::<char>::empty());
    assert(segs.push(s.subrange(0, 0)) =~= seq![Seq::<char>::empty()]);
    while i < n
        invariant
            n == s.len(),
            s == path@,
            start <= i <= n,
            path_segments(s.subrange(0, i as int)) == segs.push(s.subrange(start as int, i as int)),
            out@.map_values(|n: String| n@) == non_empty_texts(segs),
        decreases n - i,
    {
        let ghost before = out@.map_values(|n: String| n@);
        let ghost cur = s.subrange(start as int, i as int);
        let c = path.get_char(i);
        assert(s.subrange(0, i + 1).drop_last() =~= s.subrange(0, i as int));
        assert(s.subrange(0, i + 1).last() == c);
        if c == '/' {
            if start < i {
                let seg = String::from_str(path.substring_char(start, i));
                out.push(seg);
                assert(out@.map_values(|n: String| n@) =~= before.push(cur));
            }
            proof {
                assert(segs.push(cur).drop_last() =~= segs);
                segs = segs.push(cur);
                assert(s.subrange(i + 1, i + 1) =~= Seq::<char>::empty());
            }
            start = i + 1;
        } else {
            proof {
                assert(s.subrange(start as int, i + 1) =~= cur.push(c));
                assert(segs.push(cur).update(segs.len() as int, cur.push(c)) =~= segs.push(cur.push(c)));
            }
        }
        i = i + 1;
    }
    let ghost cur = s.subrange(start as int, n as int);
    assert(s.subrange(0, n as int) =~= s);
    assert(segs.push(cur).drop_last() =~= segs);
    let ghost before = out@.map_values(|n: String| n@);
    if start < n {
        let seg = String::from_str(path.substring_char(start, n));
        out.push(seg);
        assert(out@.map_values(|n: String| n@) =~= before.push(cur));
    }
    out
}

/// Reads a received message into an event; none where its payload cannot be read.
pub fn parse_redis_message(msg: &redis::Msg) -> (r: Option<PubSubMessage>)
    ensures
        r is Some <==> payload_of_msg(*msg) is Some,
        r matches Some(m) ==> m is Message || m is PMessage,
        r matches Some(m) ==> (pattern_of_msg(*msg) is Some <==> m is PMessage),
        r matches Some(PubSubMessage::PMessage { pattern: p, channel: c, payload: q }) ==> pattern_of_msg(*msg)
            == Some(p@) && c@ == channel_of_msg(*msg) && q@ == payload_text(payload_of_msg(*msg)->0),
        r matches Some(PubSubMessage::Message { channel: c, payload: q }) ==> c@ == channel_of_msg(*msg)
            && q@ == payload_text(payload_of_msg(*msg)->0),
{
    let channel = msg_channel(msg);
    let payload = msg_payload(msg);
    let pattern = msg_pattern(msg);
    classify_push(channel, payload, pattern)
}

} // verus!
