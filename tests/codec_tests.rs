use serverless_redis::codec::{redis_to_json, redis_to_json_with_context, ConversionContext, Json, ReplyValue};

fn bulk(s: &str) -> ReplyValue {
    ReplyValue::BulkString(s.as_bytes().to_vec())
}

fn text(s: &str) -> Json {
    Json::Str(s.to_string())
}

#[test]
fn numeric_text_in_map_becomes_number() {
    let v = ReplyValue::MapPairs(vec![(bulk("a"), bulk("42"))]);
    assert_eq!(redis_to_json(&v), Json::Object(vec![("a".to_string(), Json::Int(42))]));
}

#[test]
fn numeric_text_in_array_stays_text() {
    let v = ReplyValue::Array(vec![bulk("42")]);
    assert_eq!(redis_to_json(&v), Json::Array(vec![text("42")]));
}

#[test]
fn map_values_that_read_as_doubles_become_numbers() {
    let v = ReplyValue::MapPairs(vec![
        (ReplyValue::SimpleString("f".to_string()), bulk("3.14")),
        (bulk("big"), bulk("9223372036854775808")),
        (bulk("neg"), bulk("-7")),
        (bulk("plus"), bulk("+5")),
    ]);
    assert_eq!(
        redis_to_json(&v),
        Json::Object(vec![
            ("f".to_string(), Json::Float("3.14".to_string())),
            ("big".to_string(), Json::Float("9223372036854775808".to_string())),
            ("neg".to_string(), Json::Int(-7)),
            ("plus".to_string(), Json::Int(5)),
        ])
    );
}

#[test]
fn non_numeric_and_empty_map_values_stay_text() {
    let v = ReplyValue::MapPairs(vec![(bulk("name"), bulk("abc")), (bulk("e"), bulk(""))]);
    assert_eq!(
        redis_to_json(&v),
        Json::Object(vec![("name".to_string(), text("abc")), ("e".to_string(), text(""))])
    );
}

#[test]
fn coercion_reaches_only_one_level_into_a_map() {
    let v = ReplyValue::MapPairs(vec![(
        bulk("list"),
        ReplyValue::Array(vec![bulk("1"), ReplyValue::MapPairs(vec![(bulk("n"), bulk("2"))])]),
    )]);
    assert_eq!(
        redis_to_json(&v),
        Json::Object(vec![(
            "list".to_string(),
            Json::Array(vec![text("1"), Json::Object(vec![("n".to_string(), Json::Int(2))])])
        )])
    );
}

#[test]
fn map_keys_that_are_not_text_are_dropped() {
    let v = ReplyValue::MapPairs(vec![
        (ReplyValue::Int(1), bulk("x")),
        (bulk("k"), bulk("v")),
        (ReplyValue::BulkString(vec![0xff]), bulk("y")),
    ]);
    assert_eq!(redis_to_json(&v), Json::Object(vec![("k".to_string(), text("v"))]));
}

#[test]
fn attribute_passes_the_context_on() {
    let v = ReplyValue::Attribute {
        value: Box::new(bulk("7")),
        attributes: vec![(bulk("ttl"), ReplyValue::Int(3))],
    };
    assert_eq!(redis_to_json_with_context(&v, ConversionContext::InsideMap), Json::Int(7));
    assert_eq!(redis_to_json_with_context(&v, ConversionContext::Default), text("7"));
}

#[test]
fn scalar_variants_convert() {
    assert_eq!(redis_to_json(&ReplyValue::Nil), Json::Null);
    assert_eq!(redis_to_json(&ReplyValue::Int(-3)), Json::Int(-3));
    assert_eq!(redis_to_json(&ReplyValue::Okay), text("OK"));
    assert_eq!(redis_to_json(&ReplyValue::SimpleString("PONG".to_string())), text("PONG"));
    assert_eq!(redis_to_json(&ReplyValue::Boolean(true)), Json::Bool(true));
    assert_eq!(redis_to_json(&ReplyValue::Double("1.5".to_string())), Json::Float("1.5".to_string()));
    assert_eq!(
        redis_to_json(&ReplyValue::BigNumber("123456789012345678901234567890".to_string())),
        text("123456789012345678901234567890")
    );
    assert_eq!(
        redis_to_json(&ReplyValue::VerbatimString { format: "txt".to_string(), text: "hi".to_string() }),
        text("hi")
    );
    assert_eq!(redis_to_json(&ReplyValue::Unrecognized), Json::Null);
}

#[test]
fn numeric_text_at_top_level_stays_text() {
    assert_eq!(redis_to_json(&bulk("10")), text("10"));
}

#[test]
fn collections_reset_the_context() {
    let set = ReplyValue::SetItems(vec![bulk("1")]);
    let push = ReplyValue::Push { kind: "message".to_string(), data: vec![bulk("2")] };
    assert_eq!(redis_to_json_with_context(&set, ConversionContext::InsideMap), Json::Array(vec![text("1")]));
    assert_eq!(redis_to_json_with_context(&push, ConversionContext::InsideMap), Json::Array(vec![text("2")]));
}

#[test]
fn server_error_becomes_an_error_object() {
    let v = ReplyValue::Array(vec![ReplyValue::ServerError("WRONGTYPE bad".to_string()), ReplyValue::Int(1)]);
    assert_eq!(
        redis_to_json(&v),
        Json::Array(vec![
            Json::Object(vec![("error".to_string(), text("WRONGTYPE bad"))]),
            Json::Int(1)
        ])
    );
}

#[test]
fn invalid_utf8_bulk_is_decoded_lossily() {
    let v = ReplyValue::BulkString(vec![b'a', 0xff, b'b']);
    assert_eq!(redis_to_json(&v), text("a\u{FFFD}b"));
}
