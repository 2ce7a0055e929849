use base64::Engine;
use serverless_redis::pubsub::{classify_push, format_sse_message, names_from_path, payload_to_json_string, PubSubMessage};

#[test]
fn formats_every_event_type() {
    let m = PubSubMessage::Message { channel: "a".to_string(), payload: "\"hello\"".to_string() };
    assert_eq!(format_sse_message(&m), "message,a,\"hello\"");
    let p = PubSubMessage::PMessage {
        pattern: "news.*".to_string(),
        channel: "news.sport".to_string(),
        payload: "1".to_string(),
    };
    assert_eq!(format_sse_message(&p), "pmessage,news.*,news.sport,1");
    assert_eq!(format_sse_message(&PubSubMessage::Subscribe { count: 2 }), "subscribe,2");
    assert_eq!(format_sse_message(&PubSubMessage::Unsubscribe { count: 0 }), "unsubscribe,0");
    assert_eq!(format_sse_message(&PubSubMessage::PSubscribe { count: 10 }), "psubscribe,10");
    assert_eq!(format_sse_message(&PubSubMessage::PUnsubscribe { count: 123 }), "punsubscribe,123");
}

#[test]
fn text_payload_is_quoted() {
    assert_eq!(payload_to_json_string(b"hello"), "\"hello\"");
    assert_eq!(payload_to_json_string(b"say \"hi\""), "\"say \\\"hi\\\"\"");
}

#[test]
fn json_payload_is_forwarded_unchanged() {
    assert_eq!(payload_to_json_string(b"{\"a\":1}"), "{\"a\":1}");
    assert_eq!(payload_to_json_string(b"42"), "42");
}

#[test]
fn binary_payload_is_base64_quoted_and_round_trips() {
    let bytes: Vec<u8> = vec![0xff, 0xfe, 0x00, 0x80];
    let field = payload_to_json_string(&bytes);
    assert_eq!(field, "\"//4AgA==\"");
    let unquoted: String = serde_json::from_str(&field).unwrap();
    let decoded = base64::engine::general_purpose::STANDARD.decode(unquoted).unwrap();
    assert_eq!(decoded, bytes);
}

#[test]
fn push_with_pattern_is_a_pattern_message() {
    let m = classify_push("news.sport".to_string(), Some(b"goal".to_vec()), Some("news.*".to_string())).unwrap();
    assert_eq!(format_sse_message(&m), "pmessage,news.*,news.sport,\"goal\"");
}

#[test]
fn push_without_pattern_is_a_message() {
    let m = classify_push("a".to_string(), Some(b"hello".to_vec()), None).unwrap();
    assert_eq!(format_sse_message(&m), "message,a,\"hello\"");
}

#[test]
fn push_without_payload_gives_no_event() {
    assert!(classify_push("a".to_string(), None, None).is_none());
}

#[test]
fn path_names_skip_empty_segments() {
    let expected: Vec<String> = vec!["a".to_string(), "b.c".to_string()];
    assert_eq!(names_from_path("a//b.c/"), expected);
    assert_eq!(names_from_path("/"), Vec::<String>::new());
    assert_eq!(names_from_path(""), Vec::<String>::new());
}

#[test]
fn control_characters_are_escaped_in_text_payloads() {
    assert_eq!(payload_to_json_string(b"a\nb"), "\"a\\nb\"");
    assert_eq!(payload_to_json_string(b"x\x01"), "\"x\\u0001\"");
    assert_eq!(payload_to_json_string(b"back\\slash"), "\"back\\\\slash\"");
}

fn bulk(s: &[u8]) -> redis::Value {
    redis::Value::BulkString(s.to_vec())
}

#[test]
fn received_plain_message_keeps_its_fields() {
    let msg = redis::Msg::from_owned_value(redis::Value::Array(vec![bulk(b"message"), bulk(b"a"), bulk(b"hello")]))
        .unwrap();
    match serverless_redis::pubsub::parse_redis_message(&msg) {
        Some(PubSubMessage::Message { channel, payload }) => {
            assert_eq!(channel, "a");
            assert_eq!(payload, "\"hello\"");
        }
        _ => panic!("expected a plain message"),
    }
}

#[test]
fn received_pattern_message_keeps_its_fields() {
    let msg = redis::Msg::from_owned_value(redis::Value::Array(vec![
        bulk(b"pmessage"),
        bulk(b"news.*"),
        bulk(b"news.sport"),
        bulk(&[0xff]),
    ]))
    .unwrap();
    match serverless_redis::pubsub::parse_redis_message(&msg) {
        Some(PubSubMessage::PMessage { pattern, channel, payload }) => {
            assert_eq!(pattern, "news.*");
            assert_eq!(channel, "news.sport");
            assert_eq!(payload, "\"/w==\"");
        }
        _ => panic!("expected a pattern message"),
    }
}
