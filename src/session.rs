//! The lifecycle of one streaming session, as a machine from state and event to next
//! state and action; whoever owns the connection performs the actions and reports
//! the events.
use vstd::prelude::*;
use vstd::string::*;
use crate::pubsub::{bytes_of, classify_push, format_sse_message, push_event_line, text_of};
use crate::text::decimal_of;
use crate::trusted::{
    channel_of_msg, msg_channel, msg_pattern, msg_payload, pattern_of_msg, payload_of_msg,
};

verus! {

/// What a session subscribes to.
#[derive(Clone, Copy, PartialEq, Eq, Structural, Debug)]
pub enum SubscriptionKind {
    Channels,
    Patterns,
}

/// How a session ended.
#[derive(Clone, Copy, PartialEq, Eq, Structural, Debug)]
pub enum CloseReason {
    /// The message stream ended.
    Eof,
    /// The consumer went away.
    Cancelled,
    /// Connecting, subscribing or receiving failed.
    Failed,
}

/// Where a session stands.
#[derive(Clone, Copy, PartialEq, Eq, Structural, Debug)]
pub enum SessionState {
    Idle,
    Connecting,
    /// Subscribed, with the initial event emitted and no message received yet.
    Subscribed,
    Streaming,
    Closed(CloseReason),
}

/// What happened, as the owner of the connection reports it.
pub enum SessionEvent {
    /// The stream was requested.
    Start,
    /// The dedicated connection is open.
    Connected,
    ConnectFailed,
    /// Every name was subscribed.
    SubscribeDone,
    SubscribeFailed,
    /// A message arrived: its channel, its payload bytes where readable, its pattern if any.
    Push { channel: String, payload: Option<Vec<u8>>, pattern: Option<String> },
    StreamEnded,
    ConsumerGone,
    TransportFailed,
}

/// What the owner of the connection is to do next.
#[derive(Debug, PartialEq)]
pub enum SessionAction {
    /// Open a dedicated connection.
    OpenConnection,
    /// Subscribe to every name of the session, by the session's kind.
    SubscribeAll,
    /// Send this line to the consumer, then wait for the next message.
    Emit(String),
    /// Wait for the next message.
    AwaitNext,
    /// Unsubscribe and close the connection.
    Release,
    /// Nothing.
    Nothing,
}

/// The mathematical form of an action.
pub enum ActionView {
    OpenConnection,
    SubscribeAll,
    Emit(Seq<char>),
    AwaitNext,
    Release,
    Nothing,
}

impl SessionAction {
    pub open spec fn view(self) -> ActionView {
        match self {
            SessionAction::OpenConnection => ActionView::OpenConnection,
            SessionAction::SubscribeAll => ActionView::SubscribeAll,
            SessionAction::Emit(l) => ActionView::Emit(l@),
            SessionAction::AwaitNext => ActionView::AwaitNext,
            SessionAction::Release => ActionView::Release,
            SessionAction::Nothing => ActionView::Nothing,
        }
    }
}

/// The number of distinct names in a list.
pub open spec fn distinct_count(names: Seq<Seq<char>>) -> nat
    decreases names.len(),
{
    if names.len() == 0 {
        0
    } else {
        distinct_count(names.drop_last()) + if names.drop_last().contains(names.last()) {
            0nat
        } else {
            1nat
        }
    }
}

/// The line that opens a stream: the subscription count, by kind.
pub open spec fn initial_line(kind: SubscriptionKind, count: nat) -> Seq<char> {
    match kind {
        SubscriptionKind::Channels => "subscribe,"@ + decimal_of(count),
        SubscriptionKind::Patterns => "psubscribe,"@ + decimal_of(count),
    }
}

/// A state in which messages are received.
pub open spec fn receiving(s: SessionState) -> bool {
    s == SessionState::Subscribed || s == SessionState::Streaming
}

/// The state that follows a state on an event.
pub open spec fn next_state(s: SessionState, e: SessionEvent) -> SessionState {
    match (s, e) {
        (SessionState::Idle, SessionEvent::Start) => SessionState::Connecting,
        (SessionState::Connecting, SessionEvent::ConnectFailed) => SessionState::Closed(CloseReason::Failed),
        (SessionState::Connecting, SessionEvent::SubscribeFailed) => SessionState::Closed(CloseReason::Failed),
        (SessionState::Connecting, SessionEvent::ConsumerGone) => SessionState::Closed(CloseReason::Cancelled),
        (SessionState::Connecting, SessionEvent::SubscribeDone) => SessionState::Subscribed,
        (SessionState::Subscribed, SessionEvent::Push { .. }) => SessionState::Streaming,
        (SessionState::Streaming, SessionEvent::Push { .. }) => SessionState::Streaming,
        (SessionState::Subscribed, SessionEvent::StreamEnded) => SessionState::Closed(CloseReason::Eof),
        (SessionState::Streaming, SessionEvent::StreamEnded) => SessionState::Closed(CloseReason::Eof),
        (SessionState::Subscribed, SessionEvent::ConsumerGone) => SessionState::Closed(CloseReason::Cancelled),
        (SessionState::Streaming, SessionEvent::ConsumerGone) => SessionState::Closed(CloseReason::Cancelled),
        (SessionState::Subscribed, SessionEvent::TransportFailed) => SessionState::Closed(CloseReason::Failed),
        (SessionState::Streaming, SessionEvent::TransportFailed) => SessionState::Closed(CloseReason::Failed),
        _ => s,
    }
}

/// The action that a session of a kind and count takes in a state on an event.
pub open spec fn next_action(kind: SubscriptionKind, count: nat, s: SessionState, e: SessionEvent) -> ActionView {
    match (s, e) {
        (SessionState::Idle, SessionEvent::Start) => ActionView::OpenConnection,
        (SessionState::Connecting, SessionEvent::Connected) => ActionView::SubscribeAll,
        (SessionState::Connecting, SessionEvent::SubscribeDone) => ActionView::Emit(initial_line(kind, count)),
        (SessionState::Connecting, SessionEvent::ConnectFailed) => ActionView::Release,
        (SessionState::Connecting, SessionEvent::SubscribeFailed) => ActionView::Release,
        (SessionState::Connecting, SessionEvent::ConsumerGone) => ActionView::Release,
        (SessionState::Subscribed, SessionEvent::Push { channel, payload, pattern })
        | (SessionState::Streaming, SessionEvent::Push { channel, payload, pattern }) => match push_event_line(
            channel@,
            bytes_of(payload),
            text_of(pattern),
        ) {
            Some(l) => ActionView::Emit(l),
            None => ActionView::AwaitNext,
        },
        (SessionState::Subscribed, SessionEvent::StreamEnded)
        | (SessionState::Streaming, SessionEvent::StreamEnded)
        | (SessionState::Subscribed, SessionEvent::ConsumerGone)
        | (SessionState::Streaming, SessionEvent::ConsumerGone)
        | (SessionState::Subscribed, SessionEvent::TransportFailed)
        | (SessionState::Streaming, SessionEvent::TransportFailed) => ActionView::Release,
        _ => ActionView::Nothing,
    }
}

/// One streaming session over one dedicated connection.
pub struct Session {
    kind: SubscriptionKind,
    names: Vec<String>,
    count: usize,
    state: SessionState,
}

impl Session {
    /// The names as texts.
    pub closed spec fn names_view(&self) -> Seq<Seq<char>> {
        self.names@.map_values(|s: String| s@)
    }

    pub closed spec fn spec_kind(&self) -> SubscriptionKind {
        self.kind
    }

    pub closed spec fn spec_count(&self) -> nat {
        self.count as nat
    }

    pub closed spec fn spec_state(&self) -> SessionState {
        self.state
    }

    /// The count is that of the distinct names, and there is at least one name.
    pub closed spec fn wf(&self) -> bool {
        &&& self.names@.len() > 0
        &&& self.count as nat == distinct_count(self.names_view())
    }

    /// A session for a list of names, idle; none for an empty list.
    pub fn new(kind: SubscriptionKind, names: Vec<String>) -> (r: Option<Session>)
        ensures
            names@.len() == 0 <==> r is None,
            r matches Some(s) ==> s.wf() && s.spec_kind() == kind && s.spec_state() == SessionState::Idle
                && s.names_view() == names@.map_values(|n: String| n@)
                && s.spec_count() == distinct_count(s.names_view()),
    {
        if names.len() == 0 {
            return None;
        }
        let count = count_distinct(&names);
        Some(Session { kind, names, count, state: SessionState::Idle })
    }

    /// A well-formed session counts its distinct names, and has at least one.
    pub proof fn lemma_count_is_distinct(&self)
        requires
            self.wf(),
        ensures
            self.spec_count() == distinct_count(self.names_view()),
            self.names_view().len() > 0,
    {
    }

    /// What the session subscribes to.
    pub fn kind(&self) -> (r: SubscriptionKind)
        ensures
            r == self.spec_kind(),
    {
        self.kind
    }

    /// The names the session subscribes to.
    pub fn names(&self) -> (r: &Vec<String>)
        ensures
            r@.map_values(|n: String| n@) == self.names_view(),
    {
        &self.names
    }

    /// The number of distinct names.
    pub fn count(&self) -> (r: usize)
        ensures
            r as nat == self.spec_count(),
    {
        self.count
    }

    /// Where the session stands.
    pub fn state(&self) -> (r: SessionState)
        ensures
            r == self.spec_state(),
    {
        self.state
    }

    /// Moves the session on an event and says what to do.
    pub fn step(&mut self, event: SessionEvent) -> (r: SessionAction)
        requires
            old(self).wf(),
            event matches SessionEvent::Push { payload: Some(b), .. } ==> b@.len() <= isize::MAX,
        ensures
            final(self).wf(),
            final(self).spec_kind() == old(self).spec_kind(),
            final(self).names_view() == old(self).names_view(),
            final(self).spec_count() == old(self).spec_count(),
            final(self).spec_state() == next_state(old(self).spec_state(), event),
            r.view() == next_action(old(self).spec_kind(), old(self).spec_count(), old(self).spec_state(), event),
    {
        let ghost ev = event;
        match (self.state, event) {
            (SessionState::Idle, SessionEvent::Start) => {
                self.state = SessionState::Connecting;
                SessionAction::OpenConnection
            },
            (SessionState::Connecting, SessionEvent::Connected) => SessionAction::SubscribeAll,
            (SessionState::Connecting, SessionEvent::SubscribeDone) => {
                self.state = SessionState::Subscribed;
                let msg = match self.kind {
                    SubscriptionKind::Channels => crate::pubsub::PubSubMessage::Subscribe { count: self.count },
                    SubscriptionKind::Patterns => crate::pubsub::PubSubMessage::PSubscribe { count: self.count },
                };
                SessionAction::Emit(format_sse_message(&msg))
            },
            (SessionState::Connecting, SessionEvent::ConnectFailed)
            | (SessionState::Connecting, SessionEvent::SubscribeFailed) => {
                self.state = SessionState::Closed(CloseReason::Failed);
                SessionAction::Release
            },
            (SessionState::Connecting, SessionEvent::ConsumerGone) => {
                self.state = SessionState::Closed(CloseReason::Cancelled);
                SessionAction::Release
            },
            (SessionState::Subscribed, SessionEvent::Push { channel, payload, pattern })
            | (SessionState::Streaming, SessionEvent::Push { channel, payload, pattern }) => {
                self.state = SessionState::Streaming;
                match classify_push(channel, payload, pattern) {
                    Some(m) => SessionAction::Emit(format_sse_message(&m)),
                    None => SessionAction::AwaitNext,
                }
            },
            (SessionState::Subscribed, SessionEvent::StreamEnded)
            | (SessionState::Streaming, SessionEvent::StreamEnded) => {
                self.state = SessionState::Closed(CloseReason::Eof);
                SessionAction::Release
            },
            (SessionState::Subscribed, SessionEvent::ConsumerGone)
            | (SessionState::Streaming, SessionEvent::ConsumerGone) => {
                self.state = SessionState::Closed(CloseReason::Cancelled);
                SessionAction::Release
            },
            (SessionState::Subscribed, SessionEvent::TransportFailed)
            | (SessionState::Streaming, SessionEvent::TransportFailed) => {
                self.state = SessionState::Closed(CloseReason::Failed);
                SessionAction::Release
            },
            _ => SessionAction::Nothing,
        }
    }
}

/// The event for a message received on the session's connection.
pub fn push_event(msg: &redis::Msg) -> (r: SessionEvent)
    ensures
        r matches SessionEvent::Push { channel, payload, pattern } && (payload matches Some(b) ==> b@.len()
            <= isize::MAX) && channel@ == channel_of_msg(*msg) && bytes_of(payload) == payload_of_msg(*msg)
            && text_of(pattern) == pattern_of_msg(*msg),
{
    SessionEvent::Push { channel: msg_channel(msg), payload: msg_payload(msg), pattern: msg_pattern(msg) }
}

/// The number of distinct names in a list, computed.
fn count_distinct(names: &Vec<String>) -> (r: usize)
    ensures
        r as nat == distinct_count(names@.map_values(|n: String| n@)),
{
    let ghost all = names@.map_values(|n: String| n@);
    let mut count: usize = 0;
    let mut i: usize = 0;
    while i < names.len()
        invariant
            i <= names.len(),
            all == names@.map_values(|n: String| n@),
            count as nat == distinct_count(all.subrange(0, i as int)),
            count <= i,
        decreases names.len() - i,
    {
        let mut seen = false;
        let mut j: usize = 0;
        while j < i
            invariant
                j <= i < names.len(),
                all == names@.map_values(|n: String| n@),
                seen <==> exists|k: int| 0 <= k < j && all[k] == all[i as int],
            decreases i - j,
        {
            let same = names[j] == names[i];
            assert(all[j as int] == names@[j as int]@ && all[i as int] == names@[i as int]@);
            if same {
                seen = true;
            }
            proof {
                if seen {
                    if same {
                        assert(0 <= j < j + 1 && all[j as int] == all[i as int]);
                    }
                } else {
                    assert forall|k: int| 0 <= k < j + 1 implies all[k] != all[i as int] by {}
                }
            }
            j = j + 1;
        }
        let ghost pre = all.subrange(0, i as int);
        assert(all.subrange(0, i + 1).drop_last() =~= pre);
        assert(all.subrange(0, i + 1).last() == all[i as int]);
        assert(seen <==> pre.contains(all[i as int])) by {
            if seen {
                let k = choose|k: int| 0 <= k < i && all[k] == all[i as int];
                assert(pre[k] == all[i as int]);
            }
            if pre.contains(all[i as int]) {
                let k = choose|k: int| 0 <= k < pre.len() && pre[k] == all[i as int];
                assert(all[k] == all[i as int]);
            }
        }
        if !seen {
            count = count + 1;
        }
        i = i + 1;
    }
    assert(all.subrange(0, names.len() as int) =~= all);
    count
}

/// A session's lifecycle: a closed session stays closed and does nothing more; a session
/// that closes from any state past idle releases its connection in that same step; and
/// lines are emitted only once subscribed or while subscribing completes.
pub proof fn lemma_session_lifecycle(kind: SubscriptionKind, count: nat, s: SessionState, e: SessionEvent)
    ensures
        s is Closed ==> next_state(s, e) == s && next_action(kind, count, s, e) == ActionView::Nothing,
        !(s is Closed) && s != SessionState::Idle && next_state(s, e) is Closed
            ==> next_action(kind, count, s, e) == ActionView::Release,
        next_action(kind, count, s, e) is Emit ==> receiving(s) || s == SessionState::Connecting,
        s == SessionState::Connecting && e is SubscribeDone
            ==> next_action(kind, count, s, e) == ActionView::Emit(initial_line(kind, count)),
{
}

} // verus!
