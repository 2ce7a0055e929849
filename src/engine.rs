//! The decisions around executing one command or one batch: what is sent, and what
//! the caller gets back for each outcome of the round trip.
use vstd::prelude::*;
use vstd::string::*;
use crate::codec::{json_of, redis_to_json, ConversionContext, Json, JsonView, ReplyValue};
use crate::normalize::{command_view, normalize_command, normalized};

verus! {

/// The deadline of one command, in seconds.
pub const CALL_DEADLINE_SECS: u64 = 3;

/// The deadline of one batch, in seconds.
pub const BATCH_DEADLINE_SECS: u64 = 10;

/// Why a command or a batch did not produce a result.
#[derive(Debug, PartialEq)]
pub enum GatewayError {
    /// A command without any argument.
    EmptyCommand,
    /// The deadline passed before the reply came.
    TransportTimeout,
    /// The connection or the protocol failed, with the description given.
    TransportFailure(String),
    /// The store answered a single command with an error, with its description.
    ServerReportedError(String),
}

/// The text that describes an error to a client.
pub open spec fn error_text(e: GatewayError) -> Seq<char> {
    match e {
        GatewayError::EmptyCommand => "empty command"@,
        GatewayError::TransportTimeout => "deadline has elapsed"@,
        GatewayError::TransportFailure(t) => t@,
        GatewayError::ServerReportedError(t) => t@,
    }
}

impl GatewayError {
    /// The text that describes this error to a client.
    pub fn message(&self) -> (r: String)
        ensures
            r@ == error_text(*self),
    {
        match self {
            GatewayError::EmptyCommand => String::from_str("empty command"),
            GatewayError::TransportTimeout => String::from_str("deadline has elapsed"),
            GatewayError::TransportFailure(t) => t.clone(),
            GatewayError::ServerReportedError(t) => t.clone(),
        }
    }
}

/// How a round trip ended, as the connection reports it.
pub enum RoundTrip<T> {
    Replied(T),
    TimedOut,
    Failed(String),
}

/// Checks and normalizes a single command before it is sent.
pub fn prepare_call(cmd: Vec<String>) -> (r: Result<Vec<String>, GatewayError>)
    ensures
        cmd@.len() == 0 <==> r == Err::<Vec<String>, GatewayError>(GatewayError::EmptyCommand),
        cmd@.len() > 0 ==> r is Ok,
        r matches Ok(c) ==> command_view(c@) == normalized(command_view(cmd@)),
{
    if cmd.len() == 0 {
        return Err(GatewayError::EmptyCommand);
    }
    let mut c = cmd;
    normalize_command(&mut c);
    Ok(c)
}

/// The result of a single command for each way its round trip can end: a reply is
/// converted, unless it is an error that the store reported.
pub fn finish_call(outcome: RoundTrip<ReplyValue>) -> (r: Result<Json, GatewayError>)
    ensures
        match outcome {
            RoundTrip::Replied(ReplyValue::ServerError(d)) => r == Err::<Json, GatewayError>(
                GatewayError::ServerReportedError(d),
            ),
            RoundTrip::Replied(v) => r matches Ok(j) && j.view() == json_of(v, ConversionContext::Default),
            RoundTrip::TimedOut => r == Err::<Json, GatewayError>(GatewayError::TransportTimeout),
            RoundTrip::Failed(t) => r == Err::<Json, GatewayError>(GatewayError::TransportFailure(t)),
        },
{
    match outcome {
        RoundTrip::Replied(v) => {
            match v {
                ReplyValue::ServerError(d) => Err(GatewayError::ServerReportedError(d)),
                _ => Ok(redis_to_json(&v)),
            }
        },
        RoundTrip::TimedOut => Err(GatewayError::TransportTimeout),
        RoundTrip::Failed(t) => Err(GatewayError::TransportFailure(t)),
    }
}

/// A batch as a sequence of commands, each a sequence of texts.
pub open spec fn batch_view(cmds: Seq<Vec<String>>) -> Seq<Seq<Seq<char>>> {
    cmds.map_values(|c: Vec<String>| command_view(c@))
}

/// The commands that a batch sends: its non-empty commands, normalized, in order.
pub open spec fn sent_commands(cmds: Seq<Seq<Seq<char>>>) -> Seq<Seq<Seq<char>>>
    decreases cmds.len(),
{
    if cmds.len() == 0 {
        Seq::empty()
    } else {
        let rest = sent_commands(cmds.drop_last());
        if cmds.last().len() > 0 {
            rest.push(normalized(cmds.last()))
        } else {
            rest
        }
    }
}

/// The number of non-empty commands in a batch.
pub open spec fn non_empty_count(cmds: Seq<Seq<Seq<char>>>) -> nat
    decreases cmds.len(),
{
    if cmds.len() == 0 {
        0
    } else {
        non_empty_count(cmds.drop_last()) + if cmds.last().len() > 0 {
            1nat
        } else {
            0nat
        }
    }
}

/// The entries of a batch's result for the replies of its commands: each reply converted
/// on its own, in order.
pub open spec fn batch_entries(replies: Seq<ReplyValue>) -> Seq<JsonView> {
    replies.map_values(|v: ReplyValue| json_of(v, ConversionContext::Default))
}

/// Drops the empty commands of a batch and normalizes the others, keeping their order.
pub fn prepare_batch(cmds: Vec<Vec<String>>) -> (r: Vec<Vec<String>>)
    ensures
        batch_view(r@) == sent_commands(batch_view(cmds@)),
{
    let ghost all = batch_view(cmds@);
    let ghost mut done: int = 0;
    let mut rest = cmds;
    let mut out: Vec<Vec<String>> = Vec::new();
    while rest.len() > 0
        invariant
            0 <= done <= all.len(),
            batch_view(rest@) == all.subrange(done, all.len() as int),
            batch_view(out@) == sent_commands(all.subrange(0, done)),
        decreases rest.len(),
    {
        let ghost before = batch_view(out@);
        assert(batch_view(rest@).len() == rest@.len());
        let ghost old_rest = rest@;
        let mut c = rest.remove(0);
        assert(rest@ =~= old_rest.subrange(1, old_rest.len() as int));
        assert(batch_view(old_rest)[0] == all.subrange(done, all.len() as int)[0]);
        assert forall|k: int| 0 <= k < rest@.len() implies #[trigger] batch_view(rest@)[k] == all.subrange(
            done + 1,
            all.len() as int,
        )[k] by {
            assert(batch_view(old_rest)[k + 1] == all.subrange(done, all.len() as int)[k + 1]);
        }
        assert(batch_view(rest@) =~= all.subrange(done + 1, all.len() as int));
        assert(all.subrange(0, done + 1).drop_last() =~= all.subrange(0, done));
        assert(command_view(c@) == all[done]);
        if c.len() > 0 {
            normalize_command(&mut c);
            out.push(c);
            assert(batch_view(out@) =~= before.push(normalized(all[done])));
        }
        proof {
            done = done + 1;
        }
    }
    assert(all.subrange(0, all.len() as int) =~= all);
    out
}

/// The result of a batch for each way its round trip can end: every reply is converted
/// on its own, an error reply included; a timeout or a failure fails the whole batch.
pub fn finish_batch(outcome: RoundTrip<Vec<ReplyValue>>) -> (r: Result<Vec<Json>, GatewayError>)
    ensures
        match outcome {
            RoundTrip::Replied(vs) => r matches Ok(js) && js@.map_values(|j: Json| j.view()) == batch_entries(vs@),
            RoundTrip::TimedOut => r matches Err(GatewayError::TransportTimeout),
            RoundTrip::Failed(t) => r matches Err(GatewayError::TransportFailure(u)) && u@ == t@,
        },
{
    match outcome {
        RoundTrip::Replied(vs) => {
            let mut out: Vec<Json> = Vec::new();
            let mut i: usize = 0;
            while i < vs.len()
                invariant
                    i <= vs.len(),
                    out@.map_values(|j: Json| j.view()) == batch_entries(vs@.subrange(0, i as int)),
                decreases vs.len() - i,
            {
                let ghost before = out@.map_values(|j: Json| j.view());
                let j = redis_to_json(&vs[i]);
                out.push(j);
                assert(out@.map_values(|j: Json| j.view()) =~= before.push(json_of(vs@[i as int], ConversionContext::Default)));
                assert(batch_entries(vs@.subrange(0, i + 1)) =~= batch_entries(vs@.subrange(0, i as int)).push(json_of(vs@[i as int], ConversionContext::Default)));
                i = i + 1;
            }
            assert(vs@.subrange(0, vs.len() as int) =~= vs@);
            Ok(out)
        },
        RoundTrip::TimedOut => Err(GatewayError::TransportTimeout),
        RoundTrip::Failed(t) => Err(GatewayError::TransportFailure(t)),
    }
}

/// The commands a batch sends are its non-empty commands, one for each and in their
/// order: a batch made of two parts sends what the first part sends, then what the
/// second sends; a single command is sent, normalized, exactly when it is not empty.
pub proof fn lemma_batch_order(a: Seq<Seq<Seq<char>>>, b: Seq<Seq<Seq<char>>>)
    ensures
        sent_commands(a + b) == sent_commands(a) + sent_commands(b),
        sent_commands(a).len() == non_empty_count(a),
        b.len() == 1 ==> sent_commands(b) == (if b[0].len() > 0 {
            seq![normalized(b[0])]
        } else {
            Seq::<Seq<Seq<char>>>::empty()
        }),
    decreases b.len(),
{
    lemma_sent_len(a);
    if b.len() == 0 {
        assert(a + b =~= a);
        assert(sent_commands(a) + sent_commands(b) =~= sent_commands(a));
    } else {
        lemma_batch_order(a, b.drop_last());
        assert((a + b).drop_last() =~= a + b.drop_last());
        assert((a + b).last() == b.last());
        if b.len() == 1 {
            assert(b.drop_last() =~= Seq::<Seq<Seq<char>>>::empty());
        }
        if b.last().len() > 0 {
            assert(sent_commands(a + b) =~= sent_commands(a) + sent_commands(b));
        } else {
            assert(sent_commands(a + b) =~= sent_commands(a) + sent_commands(b));
        }
    }
}

proof fn lemma_sent_len(a: Seq<Seq<Seq<char>>>)
    ensures
        sent_commands(a).len() == non_empty_count(a),
    decreases a.len(),
{
    if a.len() > 0 {
        lemma_sent_len(a.drop_last());
    }
}

/// A batch yields exactly one result entry per non-empty command, in order, when the
/// store answers each command it was sent with one reply.
pub proof fn lemma_batch_entry_count(cmds: Seq<Seq<Seq<char>>>, replies: Seq<ReplyValue>)
    requires
        replies.len() == sent_commands(cmds).len(),
    ensures
        batch_entries(replies).len() == non_empty_count(cmds),
        forall|i: int| 0 <= i < replies.len() ==> #[trigger] batch_entries(replies)[i] == json_of(replies[i], ConversionContext::Default),
{
    lemma_sent_len(cmds);
}

} // verus!
