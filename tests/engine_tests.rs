use serverless_redis::codec::{Json, ReplyValue};
use serverless_redis::engine::{finish_batch, finish_call, prepare_batch, prepare_call, GatewayError, RoundTrip};

fn cmd(args: &[&str]) -> Vec<String> {
    args.iter().map(|s| s.to_string()).collect()
}

#[test]
fn empty_command_is_rejected() {
    assert_eq!(prepare_call(vec![]), Err(GatewayError::EmptyCommand));
    assert_eq!(GatewayError::EmptyCommand.message(), "empty command");
}

#[test]
fn single_command_is_normalized() {
    assert_eq!(prepare_call(cmd(&["evalsha_ro", "sha1", "0"])), Ok(cmd(&["evalsha", "sha1", "0"])));
}

#[test]
fn timeout_is_reported_and_the_next_call_succeeds() {
    assert_eq!(finish_call(RoundTrip::TimedOut), Err(GatewayError::TransportTimeout));
    assert_eq!(GatewayError::TransportTimeout.message(), "deadline has elapsed");
    assert_eq!(finish_call(RoundTrip::Replied(ReplyValue::Okay)), Ok(Json::Str("OK".to_string())));
}

#[test]
fn transport_failure_and_server_error_are_errors() {
    assert_eq!(
        finish_call(RoundTrip::Failed("broken pipe".to_string())),
        Err(GatewayError::TransportFailure("broken pipe".to_string()))
    );
    assert_eq!(
        finish_call(RoundTrip::Replied(ReplyValue::ServerError("ERR unknown".to_string()))),
        Err(GatewayError::ServerReportedError("ERR unknown".to_string()))
    );
}

#[test]
fn batch_drops_empty_commands_and_keeps_order() {
    let sent = prepare_batch(vec![
        cmd(&["set", "a", "1"]),
        vec![],
        cmd(&["evalsha_ro", "x", "0"]),
        vec![],
        cmd(&["get", "a"]),
    ]);
    assert_eq!(sent, vec![cmd(&["set", "a", "1"]), cmd(&["evalsha", "x", "0"]), cmd(&["get", "a"])]);
}

#[test]
fn batch_of_only_empty_commands_sends_nothing() {
    assert_eq!(prepare_batch(vec![vec![], vec![]]), Vec::<Vec<String>>::new());
}

#[test]
fn batch_results_embed_server_errors() {
    let out = finish_batch(RoundTrip::Replied(vec![
        ReplyValue::Okay,
        ReplyValue::ServerError("WRONGTYPE".to_string()),
        ReplyValue::BulkString(b"5".to_vec()),
    ]));
    assert_eq!(
        out,
        Ok(vec![
            Json::Str("OK".to_string()),
            Json::Object(vec![("error".to_string(), Json::Str("WRONGTYPE".to_string()))]),
            Json::Str("5".to_string()),
        ])
    );
}

#[test]
fn batch_fails_as_a_whole() {
    assert_eq!(finish_batch(RoundTrip::TimedOut), Err(GatewayError::TransportTimeout));
    assert_eq!(
        finish_batch(RoundTrip::Failed("reset".to_string())),
        Err(GatewayError::TransportFailure("reset".to_string()))
    );
}
