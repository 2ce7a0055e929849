use serverless_redis::codec::Json;
use serverless_redis::engine::GatewayError;
use serverless_redis::gateway::{
    batch_envelope, command_from_args, malformed_envelope, no_names_envelope, single_envelope, ArgValue,
};
use serverless_redis::session::SubscriptionKind;
use serverless_redis::text::{decimal_text, parse_i64};

#[test]
fn arguments_are_coerced_to_text() {
    let args = vec![
        ArgValue::Text("set".to_string()),
        ArgValue::Number("12.5".to_string()),
        ArgValue::Bool(true),
        ArgValue::Bool(false),
        ArgValue::Null,
    ];
    let expected: Vec<String> = ["set", "12.5", "true", "false", ""].iter().map(|s| s.to_string()).collect();
    assert_eq!(command_from_args(args), Some(expected));
}

#[test]
fn nested_argument_is_rejected() {
    assert_eq!(command_from_args(vec![ArgValue::Text("get".to_string()), ArgValue::Nested]), None);
}

#[test]
fn single_envelopes() {
    let ok = single_envelope(Ok(Json::Int(1)));
    assert_eq!(ok.status, "ok");
    assert_eq!(ok.result, Some(Json::Int(1)));
    assert!(ok.error.is_none() && ok.result_list.is_none());
    let err = single_envelope(Err(GatewayError::EmptyCommand));
    assert_eq!(err.status, "error");
    assert_eq!(err.error, Some("empty command".to_string()));
    assert!(err.result.is_none());
}

#[test]
fn batch_envelope_wraps_each_result() {
    let env = batch_envelope(Ok(vec![Json::Int(1), Json::Null]));
    assert_eq!(env.status, "ok");
    let entry = |v: Json| {
        Json::Object(vec![("status".to_string(), Json::Str("ok".to_string())), ("result".to_string(), v)])
    };
    assert_eq!(env.result_list, Some(vec![entry(Json::Int(1)), entry(Json::Null)]));
    let err = batch_envelope(Err(GatewayError::TransportTimeout));
    assert_eq!(err.status, "error");
    assert_eq!(err.error, Some("deadline has elapsed".to_string()));
}

#[test]
fn malformed_and_missing_names() {
    let m = malformed_envelope("bad body");
    assert_eq!(m.status, "malformed_data");
    assert_eq!(m.error, Some("bad body".to_string()));
    assert_eq!(no_names_envelope(SubscriptionKind::Patterns).error, Some("No patterns specified".to_string()));
    assert_eq!(no_names_envelope(SubscriptionKind::Channels).error, Some("No channels specified".to_string()));
}

#[test]
fn counts_in_decimal() {
    assert_eq!(decimal_text(0), "0");
    assert_eq!(decimal_text(9), "9");
    assert_eq!(decimal_text(12345), "12345");
}

#[test]
fn decimal_integers_read_as_i64() {
    assert_eq!(parse_i64("42"), Some(42));
    assert_eq!(parse_i64("+5"), Some(5));
    assert_eq!(parse_i64("-9223372036854775808"), Some(i64::MIN));
    assert_eq!(parse_i64("9223372036854775807"), Some(i64::MAX));
    assert_eq!(parse_i64("9223372036854775808"), None);
    assert_eq!(parse_i64("-9223372036854775809"), None);
    assert_eq!(parse_i64("99999999999999999999"), None);
    assert_eq!(parse_i64("-"), None);
    assert_eq!(parse_i64(""), None);
    assert_eq!(parse_i64("1a"), None);
    assert_eq!(parse_i64(" 1"), None);
}
