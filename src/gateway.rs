//! What a request becomes at the boundary: the command built from the arguments a
//! client sent, and the envelope that carries each outcome back.
use vstd::prelude::*;
use vstd::string::*;
use crate::codec::{Json, JsonView};
use crate::engine::{error_text, GatewayError};
use crate::session::SubscriptionKind;

verus! {

/// One argument as a client sent it.
pub enum ArgValue {
    Text(String),
    /// A number, by its decimal text.
    Number(String),
    Bool(bool),
    Null,
    /// An array or an object, which no command takes.
    Nested,
}

/// The text an argument stands for: a string as it is, a number by its text, a boolean
/// as `true` or `false`, null as the empty text; a nested value has none.
pub open spec fn arg_text(a: ArgValue) -> Option<Seq<char>> {
    match a {
        ArgValue::Text(s) => Some(s@),
        ArgValue::Number(t) => Some(t@),
        ArgValue::Bool(b) => Some(if b { "true"@ } else { "false"@ }),
        ArgValue::Null => Some(Seq::empty()),
        ArgValue::Nested => None,
    }
}

/// Builds a command from a client's arguments; none where one of them is nested.
pub fn command_from_args(args: Vec<ArgValue>) -> (r: Option<Vec<String>>)
    ensures
        r is None <==> exists|i: int| 0 <= i < args@.len() && args@[i] is Nested,
        r matches Some(c) ==> c@.len() == args@.len() && forall|i: int|
            0 <= i < c@.len() ==> arg_text(args@[i]) == Some(#[trigger] c@[i]@),
{
    let mut out: Vec<String> = Vec::new();
    let mut i: usize = 0;
    while i < args.len()
        invariant
            i <= args.len(),
            out@.len() == i,
            forall|k: int| 0 <= k < i ==> arg_text(args@[k]) == Some(#[trigger] out@[k]@),
            forall|k: int| 0 <= k < i ==> !(#[trigger] args@[k] is Nested),
        decreases args.len() - i,
    {
        let text = match &args[i] {
            ArgValue::Text(s) => s.clone(),
            ArgValue::Number(t) => t.clone(),
            ArgValue::Bool(b) => if *b {
                String::from_str("true")
            } else {
                String::from_str("false")
            },
            ArgValue::Null => String::new(),
            ArgValue::Nested => {
                return None;
            },
        };
        out.push(text);
        i = i + 1;
    }
    Some(out)
}

/// The envelope of every non-streaming response.
pub struct EnvResp {
    pub status: String,
    pub result: Option<Json>,
    pub result_list: Option<Vec<Json>>,
    pub error: Option<String>,
    pub message: Option<String>,
}

/// The envelope for a single command's outcome.
pub fn single_envelope(r: Result<Json, GatewayError>) -> (e: EnvResp)
    ensures
        e.result_list is None && e.message is None,
        match r {
            Ok(v) => e.status@ == "ok"@ && e.result == Some(v) && e.error is None,
            Err(x) => e.status@ == "error"@ && e.result is None && (e.error matches Some(t) && t@
                == error_text(x)),
        },
{
    match r {
        Ok(v) => EnvResp {
            status: String::from_str("ok"),
            result: Some(v),
            result_list: None,
            error: None,
            message: None,
        },
        Err(x) => EnvResp {
            status: String::from_str("error"),
            result: None,
            result_list: None,
            error: Some(x.message()),
            message: None,
        },
    }
}

/// One entry of a batch's result list: `{"status": "ok", "result": value}`.
pub open spec fn entry_view(v: JsonView) -> JsonView {
    JsonView::Object(seq![("status"@, JsonView::Str("ok"@)), ("result"@, v)])
}

/// The envelope for a batch's outcome: each result wrapped as an `ok` entry, in order.
pub fn batch_envelope(r: Result<Vec<Json>, GatewayError>) -> (e: EnvResp)
    ensures
        e.result is None && e.message is None,
        match r {
            Ok(vs) => e.status@ == "ok"@ && e.error is None && (e.result_list matches Some(l) && l@.len()
                == vs@.len() && forall|i: int|
                0 <= i < l@.len() ==> (#[trigger] l@[i]).view() == entry_view(vs@[i].view())),
            Err(x) => e.status@ == "error"@ && e.result_list is None && (e.error matches Some(t) && t@
                == error_text(x)),
        },
{
    match r {
        Ok(vs) => {
            let ghost views = vs@.map_values(|j: Json| j.view());
            let mut rest = vs;
            let mut out: Vec<Json> = Vec::new();
            let ghost mut done: int = 0;
            while rest.len() > 0
                invariant
                    0 <= done <= views.len(),
                    rest@.len() == views.len() - done,
                    forall|k: int| 0 <= k < rest@.len() ==> (#[trigger] rest@[k]).view() == views[done + k],
                    out@.len() == done,
                    forall|k: int| 0 <= k < done ==> (#[trigger] out@[k]).view() == entry_view(views[k]),
                decreases rest.len(),
            {
                let ghost old_rest = rest@;
                let v = rest.remove(0);
                assert(v.view() == old_rest[0].view());
                assert forall|k: int| 0 <= k < rest@.len() implies (#[trigger] rest@[k]).view() == views[done + 1 + k] by {
                    assert(rest@[k] == old_rest[k + 1]);
                }
                let mut members: Vec<(String, Json)> = Vec::new();
                members.push((String::from_str("status"), Json::Str(String::from_str("ok"))));
                members.push((String::from_str("result"), v));
                let entry = Json::Object(members);
                assert(members@[0].1.view() == JsonView::Str("ok"@));
                assert(entry.view()->Object_0 =~= seq![("status"@, JsonView::Str("ok"@)), ("result"@, views[done])]);
                out.push(entry);
                proof {
                    done = done + 1;
                }
            }
            EnvResp {
                status: String::from_str("ok"),
                result: None,
                result_list: Some(out),
                error: None,
                message: None,
            }
        },
        Err(x) => EnvResp {
            status: String::from_str("error"),
            result: None,
            result_list: None,
            error: Some(x.message()),
            message: None,
        },
    }
}

/// The envelope for a request whose body has the wrong shape.
pub fn malformed_envelope(error: &str) -> (e: EnvResp)
    ensures
        e.status@ == "malformed_data"@,
        e.result is None && e.result_list is None && e.message is None,
        e.error matches Some(t) && t@ == error@,
{
    EnvResp {
        status: String::from_str("malformed_data"),
        result: None,
        result_list: None,
        error: Some(String::from_str(error)),
        message: None,
    }
}

/// The envelope for a stream request that names nothing to subscribe to.
pub fn no_names_envelope(kind: SubscriptionKind) -> (e: EnvResp)
    ensures
        e.status@ == "malformed_data"@,
        e.result is None && e.result_list is None && e.message is None,
        e.error matches Some(t) && t@ == (match kind {
            SubscriptionKind::Channels => "No channels specified"@,
            SubscriptionKind::Patterns => "No patterns specified"@,
        }),
{
    match kind {
        SubscriptionKind::Channels => malformed_envelope("No channels specified"),
        SubscriptionKind::Patterns => malformed_envelope("No patterns specified"),
    }
}

} // verus!
