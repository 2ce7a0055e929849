use serverless_redis::session::{CloseReason, Session, SessionAction, SessionEvent, SessionState, SubscriptionKind};

fn names(list: &[&str]) -> Vec<String> {
    list.iter().map(|s| s.to_string()).collect()
}

fn subscribed(kind: SubscriptionKind, list: &[&str]) -> (Session, SessionAction) {
    let mut s = Session::new(kind, names(list)).unwrap();
    assert_eq!(s.step(SessionEvent::Start), SessionAction::OpenConnection);
    assert_eq!(s.state(), SessionState::Connecting);
    assert_eq!(s.step(SessionEvent::Connected), SessionAction::SubscribeAll);
    let first = s.step(SessionEvent::SubscribeDone);
    assert_eq!(s.state(), SessionState::Subscribed);
    (s, first)
}

#[test]
fn subscribing_to_two_channels_opens_with_count_two() {
    let (mut s, first) = subscribed(SubscriptionKind::Channels, &["a", "b"]);
    assert_eq!(first, SessionAction::Emit("subscribe,2".to_string()));
    let line = s.step(SessionEvent::Push { channel: "a".to_string(), payload: Some(b"hello".to_vec()), pattern: None });
    assert_eq!(line, SessionAction::Emit("message,a,\"hello\"".to_string()));
    assert_eq!(s.state(), SessionState::Streaming);
}

#[test]
fn pattern_subscription_emits_pattern_messages() {
    let (mut s, first) = subscribed(SubscriptionKind::Patterns, &["news.*"]);
    assert_eq!(first, SessionAction::Emit("psubscribe,1".to_string()));
    let line = s.step(SessionEvent::Push {
        channel: "news.sport".to_string(),
        payload: Some(b"{\"score\":1}".to_vec()),
        pattern: Some("news.*".to_string()),
    });
    assert_eq!(line, SessionAction::Emit("pmessage,news.*,news.sport,{\"score\":1}".to_string()));
}

#[test]
fn count_is_of_distinct_names() {
    let (s, first) = subscribed(SubscriptionKind::Channels, &["a", "a", "b"]);
    assert_eq!(first, SessionAction::Emit("subscribe,2".to_string()));
    assert_eq!(s.count(), 2);
    assert_eq!(s.names(), &names(&["a", "a", "b"]));
    assert_eq!(s.kind(), SubscriptionKind::Channels);
}

#[test]
fn empty_name_list_gives_no_session() {
    assert!(Session::new(SubscriptionKind::Channels, vec![]).is_none());
}

#[test]
fn subscribe_failure_closes_with_error_and_streams_nothing() {
    let mut s = Session::new(SubscriptionKind::Channels, names(&["a"])).unwrap();
    s.step(SessionEvent::Start);
    s.step(SessionEvent::Connected);
    assert_eq!(s.step(SessionEvent::SubscribeFailed), SessionAction::Release);
    assert_eq!(s.state(), SessionState::Closed(CloseReason::Failed));
    let after = s.step(SessionEvent::Push { channel: "a".to_string(), payload: Some(b"x".to_vec()), pattern: None });
    assert_eq!(after, SessionAction::Nothing);
}

#[test]
fn every_terminal_event_releases_the_connection() {
    for (event, reason) in [
        (SessionEvent::StreamEnded, CloseReason::Eof),
        (SessionEvent::ConsumerGone, CloseReason::Cancelled),
        (SessionEvent::TransportFailed, CloseReason::Failed),
    ] {
        let (mut s, _) = subscribed(SubscriptionKind::Channels, &["a"]);
        assert_eq!(s.step(event), SessionAction::Release);
        assert_eq!(s.state(), SessionState::Closed(reason));
        assert_eq!(s.step(SessionEvent::StreamEnded), SessionAction::Nothing);
    }
}

#[test]
fn unreadable_payload_is_skipped() {
    let (mut s, _) = subscribed(SubscriptionKind::Channels, &["a"]);
    let r = s.step(SessionEvent::Push { channel: "a".to_string(), payload: None, pattern: None });
    assert_eq!(r, SessionAction::AwaitNext);
}
