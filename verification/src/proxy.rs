//! The decisions of the stdio proxy between an agent and an MCP server.
//!
//! The proxy reads lines from the agent and from the server.  For each
//! `tools/call` request from the agent it consults the policy engine, then
//! either answers the agent itself with a JSON-RPC error (the call is blocked)
//! or forwards the call and tracks it until the server's response arrives.
//! The functions here take the parsed messages, the engine's decision and the
//! table of pending calls, and say what to forward, what to answer and what
//! to record; reading and writing the streams is the caller's part.
use crate::clock::{duration_as_millis, instant_elapsed};
use crate::config::AgentGateConfig;
use crate::ids::{is_uuid_v4_text, new_uuid_v4_text};
use crate::json::{JsonModel, JsonValue};
use crate::jsonrpc::{
    build_error_response, copy_opt_json, is_response_with_result, response_with_result, extract_tool_call_params, id_key, is_error_response,
    is_tools_call, opt_json, opt_str, rebuild_tools_call, spec_id_key, spec_params_with_arguments,
    spec_tool_arguments, spec_tool_name, tools_call_method, JsonRpcMessage, JsonRpcRequest,
    JsonRpcResponse,
};
use crate::pending::{keys_distinct, map_of, PendingCall, PendingCallView, PendingCalls};
use crate::policy::PolicyDecision;
use std::time::Instant;
use vstd::prelude::*;
use vstd::string::*;

verus! {

/// The JSON-RPC error code of a call that a policy denies.
pub const DENIED_CODE: i64 = -32603;

/// The JSON-RPC error code of a call refused by a rate limit.
pub const RATE_LIMITED_CODE: i64 = -32029;

/// How a tool call ended.
#[derive(Debug, Clone, Copy, PartialEq, Eq, Structural)]
pub enum InvocationStatus {
    Allowed,
    Denied,
    Error,
    RateLimited,
}

/// The name under which a status is stored and filtered.
pub open spec fn status_name(s: InvocationStatus) -> Seq<char> {
    match s {
        InvocationStatus::Allowed => "allowed"@,
        InvocationStatus::Denied => "denied"@,
        InvocationStatus::Error => "error"@,
        InvocationStatus::RateLimited => "rate_limited"@,
    }
}

impl InvocationStatus {
    /// The name under which the status is stored and filtered.
    pub fn as_str(&self) -> (r: &'static str)
        ensures
            r@ == status_name(*self),
    {
        match self {
            InvocationStatus::Allowed => "allowed",
            InvocationStatus::Denied => "denied",
            InvocationStatus::Error => "error",
            InvocationStatus::RateLimited => "rate_limited",
        }
    }
}

/// What the proxy records of a tool call.  The record's timestamp is
/// assigned where it is stored.
#[derive(Debug)]
pub struct InvocationRecord {
    /// A fresh random UUID, hyphenated.
    pub id: String,
    pub agent_id: Option<String>,
    pub session_id: Option<String>,
    pub server_name: String,
    pub tool_name: String,
    pub arguments: Option<JsonValue>,
    pub result: Option<JsonValue>,
    pub latency_ms: Option<i64>,
    pub status: InvocationStatus,
    pub policy_hit: Option<String>,
}

/// The model of a record.
pub struct RecordView {
    pub id: Seq<char>,
    pub agent_id: Option<Seq<char>>,
    pub session_id: Option<Seq<char>>,
    pub server_name: Seq<char>,
    pub tool_name: Seq<char>,
    pub arguments: Option<JsonModel>,
    pub result: Option<JsonModel>,
    pub latency_ms: Option<i64>,
    pub status: InvocationStatus,
    pub policy_hit: Option<Seq<char>>,
}

impl View for InvocationRecord {
    type V = RecordView;

    open spec fn view(&self) -> RecordView {
        RecordView {
            id: self.id@,
            agent_id: opt_str(self.agent_id),
            session_id: opt_str(self.session_id),
            server_name: self.server_name@,
            tool_name: self.tool_name@,
            arguments: opt_json(self.arguments),
            result: opt_json(self.result),
            latency_ms: self.latency_ms,
            status: self.status,
            policy_hit: opt_str(self.policy_hit),
        }
    }
}

/// What the proxy does with a message from the agent.
#[derive(Debug)]
pub enum InboundAction {
    /// Forward the line to the server as it was received.
    ForwardLine,
    /// Forward this request to the server in place of the line.
    ForwardRequest(JsonRpcRequest),
    /// Answer the agent with this response and store this record; nothing
    /// reaches the server.
    Reject { response: JsonRpcResponse, record: InvocationRecord },
}

/// The record of a call that the proxy blocked.
pub open spec fn blocked_record(
    id: Seq<char>,
    tool_name: Seq<char>,
    arguments: Option<JsonModel>,
    server_name: Seq<char>,
    rule_id: Seq<char>,
    status: InvocationStatus,
) -> RecordView {
    RecordView {
        id,
        agent_id: None,
        session_id: None,
        server_name,
        tool_name,
        arguments,
        result: None,
        latency_ms: None,
        status,
        policy_hit: Some(rule_id),
    }
}

/// The message with which a rate-limited call is refused.
pub open spec fn rate_limit_message(rule_id: Seq<char>) -> Seq<char> {
    "Rate limit exceeded for rule '"@ + rule_id + "'"@
}

/// The record of a call that completed with `resp` after `latency_ms`.
pub open spec fn completed_record_view(
    id: Seq<char>,
    call: PendingCallView,
    resp: JsonRpcResponse,
    server_name: Seq<char>,
    latency_ms: i64,
) -> RecordView {
    RecordView {
        id,
        agent_id: None,
        session_id: None,
        server_name,
        tool_name: call.tool_name,
        arguments: call.arguments,
        result: opt_json(resp.result),
        latency_ms: Some(latency_ms),
        status: if resp.error is Some {
            InvocationStatus::Error
        } else {
            InvocationStatus::Allowed
        },
        policy_hit: None,
    }
}

/// The forwarded request is `original` with its arguments replaced.
pub open spec fn is_rebuilt_request(r: JsonRpcRequest, original: JsonRpcRequest, arguments: JsonModel) -> bool {
    &&& r.jsonrpc@ == original.jsonrpc@
    &&& opt_str(r.id) == opt_str(original.id)
    &&& r.method@ == original.method@
    &&& opt_json(r.params) == Some(spec_params_with_arguments(opt_json(original.params), arguments))
}

/// The record of a call denied by rule `rule_id`.
pub fn denied_record(tool_name: &str, arguments: Option<JsonValue>, server_name: &str, rule_id: &str) -> (r:
    InvocationRecord)
    ensures
        is_uuid_v4_text(r@.id),
        r@ == blocked_record(r@.id, tool_name@, opt_json(arguments), server_name@, rule_id@, InvocationStatus::Denied),
        r@.server_name == server_name@,
        r@.tool_name == tool_name@,
        r@.policy_hit == Some(rule_id@),
        r@.status == InvocationStatus::Denied,
{
    InvocationRecord {
        id: new_uuid_v4_text(),
        agent_id: None,
        session_id: None,
        server_name: String::from_str(server_name),
        tool_name: String::from_str(tool_name),
        arguments,
        result: None,
        latency_ms: None,
        status: InvocationStatus::Denied,
        policy_hit: Some(String::from_str(rule_id)),
    }
}

/// The record of a call refused by the rate limit of rule `rule_id`.
pub fn rate_limited_record(tool_name: &str, arguments: Option<JsonValue>, server_name: &str, rule_id: &str) -> (r:
    InvocationRecord)
    ensures
        is_uuid_v4_text(r@.id),
        r@ == blocked_record(
            r@.id,
            tool_name@,
            opt_json(arguments),
            server_name@,
            rule_id@,
            InvocationStatus::RateLimited,
        ),
        r@.server_name == server_name@,
        r@.tool_name == tool_name@,
        r@.policy_hit == Some(rule_id@),
        r@.status == InvocationStatus::RateLimited,
{
    InvocationRecord {
        id: new_uuid_v4_text(),
        agent_id: None,
        session_id: None,
        server_name: String::from_str(server_name),
        tool_name: String::from_str(tool_name),
        arguments,
        result: None,
        latency_ms: None,
        status: InvocationStatus::RateLimited,
        policy_hit: Some(String::from_str(rule_id)),
    }
}

/// The tool name and arguments of a message, where it is a `tools/call`
/// request; `None` for any other message.
pub fn tool_call_of(msg: &JsonRpcMessage) -> (r: Option<(String, Option<JsonValue>)>)
    ensures
        match msg {
            JsonRpcMessage::Request(req) => if req.method@ == tools_call_method() {
                r matches Some(c) && c.0@ == spec_tool_name(opt_json(req.params)) && opt_json(c.1)
                    == spec_tool_arguments(opt_json(req.params))
            } else {
                r is None
            },
            _ => r is None,
        },
{
    match msg {
        JsonRpcMessage::Request(req) => {
            if is_tools_call(&req.method) {
                Some(extract_tool_call_params(req))
            } else {
                None
            }
        },
        _ => None,
    }
}

/// What the proxy does with a line from the agent before any policy is
/// consulted.
#[derive(Debug)]
pub enum InboundPlan {
    /// An empty line: drop it.
    Skip,
    /// Not a `tools/call` request, or not JSON-RPC at all: forward the line.
    ForwardLine,
    /// A `tools/call` request: settle it with `admit_tool_call`.
    SettleToolCall { tool_name: String, arguments: Option<JsonValue> },
}

/// Plans a line from the agent; `msg` is the line parsed, `None` where it is
/// not JSON-RPC.
pub fn plan_inbound(line: &str, msg: Option<&JsonRpcMessage>) -> (r: InboundPlan)
    ensures
        line@.len() == 0 ==> r is Skip,
        line@.len() != 0 ==> match msg {
            Some(JsonRpcMessage::Request(req)) => if req.method@ == tools_call_method() {
                r matches InboundPlan::SettleToolCall { tool_name, arguments } && tool_name@
                    == spec_tool_name(opt_json(req.params)) && opt_json(arguments)
                    == spec_tool_arguments(opt_json(req.params))
            } else {
                r is ForwardLine
            },
            _ => r is ForwardLine,
        },
{
    if line.is_empty() {
        return InboundPlan::Skip;
    }
    match msg {
        Some(m) => match tool_call_of(m) {
            Some((tool_name, arguments)) => InboundPlan::SettleToolCall { tool_name, arguments },
            None => InboundPlan::ForwardLine,
        },
        None => InboundPlan::ForwardLine,
    }
}

/// Settles a `tools/call` request once the policy engine has decided
/// (`decision` is `None` where no policy is loaded):
/// - allowed, or no policy: the call is kept pending and the line forwarded;
/// - denied: the agent gets error `-32603` with the rule's message and the
///   call is recorded as denied;
/// - rate-limited: the agent gets error `-32029` and the call is recorded as
///   rate-limited;
/// - redacted: the request goes to the server with the rewritten arguments,
///   and the call is kept pending with them.
pub fn admit_tool_call(
    pending: &mut PendingCalls,
    req: &JsonRpcRequest,
    tool_name: String,
    arguments: Option<JsonValue>,
    decision: Option<PolicyDecision>,
    server_name: &str,
    started_at: Instant,
) -> (r: InboundAction)
    ensures
        match decision {
            None | Some(PolicyDecision::Allow) => {
                &&& r is ForwardLine
                &&& final(pending)@ == old(pending)@.insert(
                    spec_id_key(opt_str(req.id)),
                    PendingCallView { tool_name: tool_name@, arguments: opt_json(arguments), started_at },
                )
            },
            Some(PolicyDecision::Deny { rule_id, message }) => {
                &&& final(pending)@ == old(pending)@
                &&& r matches InboundAction::Reject { response, record } && is_error_response(
                    response,
                    opt_str(req.id),
                    DENIED_CODE,
                    message@,
                ) && is_uuid_v4_text(record@.id) && record@ == blocked_record(
                    record@.id,
                    tool_name@,
                    opt_json(arguments),
                    server_name@,
                    rule_id@,
                    InvocationStatus::Denied,
                ) && record@.server_name == server_name@ && record@.policy_hit == Some(rule_id@)
                    && record@.status == InvocationStatus::Denied
            },
            Some(PolicyDecision::RateLimited { rule_id }) => {
                &&& final(pending)@ == old(pending)@
                &&& r matches InboundAction::Reject { response, record } && is_error_response(
                    response,
                    opt_str(req.id),
                    RATE_LIMITED_CODE,
                    rate_limit_message(rule_id@),
                ) && is_uuid_v4_text(record@.id) && record@ == blocked_record(
                    record@.id,
                    tool_name@,
                    opt_json(arguments),
                    server_name@,
                    rule_id@,
                    InvocationStatus::RateLimited,
                ) && record@.server_name == server_name@ && record@.policy_hit == Some(rule_id@)
                    && record@.status == InvocationStatus::RateLimited
            },
            Some(PolicyDecision::Redact { rule_id, arguments: redacted }) => {
                &&& final(pending)@ == old(pending)@.insert(
                    spec_id_key(opt_str(req.id)),
                    PendingCallView { tool_name: tool_name@, arguments: Some(redacted@), started_at },
                )
                &&& r matches InboundAction::ForwardRequest(f) && is_rebuilt_request(f, *req, redacted@)
            },
        },
{
    match decision {
        Some(PolicyDecision::Deny { rule_id, message }) => {
            let response = build_error_response(&req.id, DENIED_CODE, message.as_str());
            let record = denied_record(tool_name.as_str(), arguments, server_name, rule_id.as_str());
            InboundAction::Reject { response, record }
        },
        Some(PolicyDecision::RateLimited { rule_id }) => {
            let message = String::from_str("Rate limit exceeded for rule '").concat(
                rule_id.as_str(),
            ).concat("'");
            let response = build_error_response(&req.id, RATE_LIMITED_CODE, message.as_str());
            let record = rate_limited_record(tool_name.as_str(), arguments, server_name, rule_id.as_str());
            InboundAction::Reject { response, record }
        },
        Some(PolicyDecision::Redact { rule_id: _, arguments: redacted }) => {
            let kept_arguments = redacted.clone_value();
            let forwarded = rebuild_tools_call(req, redacted);
            pending.insert(
                id_key(req),
                PendingCall { tool_name, arguments: Some(kept_arguments), started_at },
            );
            InboundAction::ForwardRequest(forwarded)
        },
        _ => {
            pending.insert(id_key(req), PendingCall { tool_name, arguments, started_at });
            InboundAction::ForwardLine
        },
    }
}

/// The record of a pending call that completed with `resp` after
/// `latency_ms` milliseconds: an error response makes it an error, any other
/// an allowed call.
pub fn completed_record(call: PendingCall, resp: &JsonRpcResponse, server_name: &str, latency_ms: i64) -> (r:
    InvocationRecord)
    ensures
        is_uuid_v4_text(r@.id),
        r@ == completed_record_view(r@.id, call@, *resp, server_name@, latency_ms),
{
    let status = if resp.error.is_some() {
        InvocationStatus::Error
    } else {
        InvocationStatus::Allowed
    };
    InvocationRecord {
        id: new_uuid_v4_text(),
        agent_id: None,
        session_id: None,
        server_name: String::from_str(server_name),
        tool_name: call.tool_name,
        arguments: call.arguments,
        result: copy_opt_json(&resp.result),
        latency_ms: Some(latency_ms),
        status,
        policy_hit: None,
    }
}

/// Pairs a message from the server with the call it answers: a response
/// takes the call pending under its id out of the table and gives its record,
/// timed by the clock.  Anything else, or a response to no pending call,
/// gives nothing.
pub fn flush_pending_call(msg: &JsonRpcMessage, pending: &mut PendingCalls, server_name: &str) -> (r: Option<
    InvocationRecord,
>)
    ensures
        match msg {
            JsonRpcMessage::Response(resp) => {
                &&& final(pending)@ == old(pending)@.remove(resp.id@)
                &&& match r {
                    Some(rec) => old(pending)@.dom().contains(resp.id@) && exists|latency_ms: i64|
                        is_uuid_v4_text(rec@.id) && rec@ == completed_record_view(
                            rec@.id,
                            old(pending)@[resp.id@],
                            *resp,
                            server_name@,
                            latency_ms,
                        ),
                    None => !old(pending)@.dom().contains(resp.id@),
                }
            },
            _ => final(pending)@ == old(pending)@ && r is None,
        },
{
    match msg {
        JsonRpcMessage::Response(resp) => {
            match pending.remove(&resp.id) {
                Some(call) => {
                    let elapsed = instant_elapsed(&call.started_at);
                    let latency_ms = duration_as_millis(&elapsed) as i64;
                    Some(completed_record(call, resp, server_name, latency_ms))
                },
                None => None,
            }
        },
        _ => None,
    }
}

/// The record of a call the server never answered: an error, with no result,
/// timed up to the moment it was given up.
pub open spec fn unanswered_record_view(
    id: Seq<char>,
    call: PendingCallView,
    server_name: Seq<char>,
    latency_ms: i64,
) -> RecordView {
    RecordView {
        id,
        agent_id: None,
        session_id: None,
        server_name,
        tool_name: call.tool_name,
        arguments: call.arguments,
        result: None,
        latency_ms: Some(latency_ms),
        status: InvocationStatus::Error,
        policy_hit: None,
    }
}

/// `r` records each of `calls`, in order, as never answered.
pub open spec fn records_unanswered(r: Seq<InvocationRecord>, calls: Seq<(String, PendingCall)>, server_name: Seq<char>) -> bool {
    &&& r.len() == calls.len()
    &&& forall|i: int|
        0 <= i < r.len() ==> is_uuid_v4_text((#[trigger] r[i])@.id) && exists|latency_ms: i64|
            r[i]@ == #[trigger] unanswered_record_view(r[i]@.id, calls[i].1@, server_name, latency_ms)
}

/// Records calls that will get no response, each timed by the clock.
pub fn unanswered_records(calls: Vec<(String, PendingCall)>, server_name: &str) -> (r: Vec<InvocationRecord>)
    ensures
        records_unanswered(r@, calls@, server_name@),
{
    let ghost all = calls@;
    let mut rest = calls;
    let mut out: Vec<InvocationRecord> = Vec::new();
    while rest.len() > 0
        invariant
            out@.len() + rest@.len() == all.len(),
            rest@ == all.skip(out@.len() as int),
            records_unanswered(out@, all.take(out@.len() as int), server_name@),
        decreases rest@.len(),
    {
        let ghost k = out@.len() as int;
        let (_, call) = rest.remove(0);
        assert(all[k] == all.skip(k)[0]);
        let elapsed = instant_elapsed(&call.started_at);
        let latency_ms = duration_as_millis(&elapsed) as i64;
        let rec = InvocationRecord {
            id: new_uuid_v4_text(),
            agent_id: None,
            session_id: None,
            server_name: String::from_str(server_name),
            tool_name: call.tool_name,
            arguments: call.arguments,
            result: None,
            latency_ms: Some(latency_ms),
            status: InvocationStatus::Error,
            policy_hit: None,
        };
        out.push(rec);
        assert(rest@ =~= all.skip(k + 1));
        assert forall|i: int| 0 <= i < out@.len() implies is_uuid_v4_text((#[trigger] out@[i])@.id) && exists|
            l: i64,
        | out@[i]@ == #[trigger] unanswered_record_view(out@[i]@.id, all.take(k + 1)[i].1@, server_name@, l) by {
            if i < k {
                assert(all.take(k + 1)[i] == all.take(k)[i]);
            } else {
                assert(out@[i]@ == unanswered_record_view(out@[i]@.id, all[k].1@, server_name@, latency_ms));
            }
        }
    }
    assert(all.take(all.len() as int) =~= all);
    out
}

/// Gives up on every pending call (the server is gone): the table empties,
/// and each call it held is recorded as never answered.
pub fn drain_pending(pending: &mut PendingCalls, server_name: &str) -> (r: Vec<InvocationRecord>)
    ensures
        final(pending)@ == Map::<Seq<char>, PendingCallView>::empty(),
        exists|calls: Seq<(String, PendingCall)>|
            keys_distinct(calls) && map_of(calls) == old(pending)@ && records_unanswered(
                r@,
                calls,
                server_name@,
            ),
{
    let calls = pending.take_all();
    let ghost cs = calls@;
    let r = unanswered_records(calls, server_name);
    assert(keys_distinct(cs) && map_of(cs) == old(pending)@ && records_unanswered(r@, cs, server_name@));
    r
}

/// What the proxy does with a line from the server.
#[derive(Debug)]
pub enum ResponsePlan {
    /// An empty line: drop it.
    Skip,
    /// Forward the line to the agent, storing the record of the call it
    /// completes, if any.
    ForwardLine(Option<InvocationRecord>),
    /// Forward this response, whose result the policy scrubbed, in place of
    /// the line, storing the record of the call it completes, if any.
    ForwardResponse(JsonRpcResponse, Option<InvocationRecord>),
}

/// `rec` is what completing the call pending under `resp`'s id gives: the
/// call's record where one was pending, nothing where none was.
pub open spec fn is_completion(
    rec: Option<InvocationRecord>,
    pending: Map<Seq<char>, PendingCallView>,
    resp: JsonRpcResponse,
    server_name: Seq<char>,
) -> bool {
    match rec {
        Some(x) => pending.dom().contains(resp.id@) && is_uuid_v4_text(x@.id) && exists|latency_ms: i64|
            x@ == #[trigger] completed_record_view(x@.id, pending[resp.id@], resp, server_name, latency_ms),
        None => !pending.dom().contains(resp.id@),
    }
}

/// The tool of the call that a message from the server answers: that of the
/// call pending under a response's id.  The policy needs it to decide whether
/// the result is to be scrubbed.
pub fn answered_tool(msg: &JsonRpcMessage, pending: &PendingCalls) -> (r: Option<String>)
    ensures
        match msg {
            JsonRpcMessage::Response(resp) => match r {
                Some(t) => pending@.dom().contains(resp.id@) && pending@[resp.id@].tool_name == t@,
                None => !pending@.dom().contains(resp.id@),
            },
            _ => r is None,
        },
{
    match msg {
        JsonRpcMessage::Response(resp) => match pending.get(&resp.id) {
            Some(call) => Some(call.tool_name.clone()),
            None => None,
        },
        _ => None,
    }
}

/// Handles a line from the server; `msg` is the line parsed, `None` where it
/// is not JSON-RPC, and `result_redaction` the scrubbed result that the
/// policy puts in place of a response's result, where it redacts it.
/// Every line but an empty one reaches the agent; a response also completes
/// the call pending under its id.  A scrubbed response goes out, and is
/// recorded, with the scrubbed result; every other line goes out unchanged.
pub fn settle_response(
    line: &str,
    msg: Option<&JsonRpcMessage>,
    result_redaction: Option<JsonValue>,
    pending: &mut PendingCalls,
    server_name: &str,
) -> (r: ResponsePlan)
    ensures
        line@.len() == 0 ==> r is Skip && final(pending)@ == old(pending)@,
        line@.len() != 0 ==> match msg {
            Some(JsonRpcMessage::Response(resp)) => {
                &&& final(pending)@ == old(pending)@.remove(resp.id@)
                &&& match result_redaction {
                    None => r matches ResponsePlan::ForwardLine(rec) && is_completion(
                        rec,
                        old(pending)@,
                        *resp,
                        server_name@,
                    ),
                    Some(scrubbed) => r matches ResponsePlan::ForwardResponse(f, rec)
                        && is_response_with_result(f, *resp, scrubbed@) && is_completion(
                        rec,
                        old(pending)@,
                        f,
                        server_name@,
                    ),
                }
            },
            _ => final(pending)@ == old(pending)@ && r matches ResponsePlan::ForwardLine(None),
        },
{
    if line.is_empty() {
        return ResponsePlan::Skip;
    }
    match msg {
        Some(JsonRpcMessage::Response(resp)) => match result_redaction {
            None => ResponsePlan::ForwardLine(flush_pending_call(msg.unwrap(), pending, server_name)),
            Some(scrubbed) => {
                let scrubbed_msg = JsonRpcMessage::Response(response_with_result(resp, scrubbed));
                let rec = flush_pending_call(&scrubbed_msg, pending, server_name);
                match scrubbed_msg {
                    JsonRpcMessage::Response(f) => ResponsePlan::ForwardResponse(f, rec),
                    _ => ResponsePlan::ForwardLine(rec),
                }
            },
        },
        Some(m) => ResponsePlan::ForwardLine(flush_pending_call(m, pending, server_name)),
        None => ResponsePlan::ForwardLine(None),
    }
}

/// A blocked call is recorded against the server the proxy wraps, whatever
/// rule blocked it: a denied call and a rate-limited one name that server,
/// the call's tool and arguments and the rule, carry no result and no
/// latency, and their records of the same call differ in nothing but the
/// status.
pub proof fn lemma_blocked_records_name_the_server(
    id: Seq<char>,
    tool_name: Seq<char>,
    arguments: Option<JsonModel>,
    server_name: Seq<char>,
    rule_id: Seq<char>,
)
    ensures
        ({
            let denied = blocked_record(id, tool_name, arguments, server_name, rule_id, InvocationStatus::Denied);
            let limited = blocked_record(
                id,
                tool_name,
                arguments,
                server_name,
                rule_id,
                InvocationStatus::RateLimited,
            );
            &&& denied.server_name == server_name
            &&& limited.server_name == server_name
            &&& denied.tool_name == tool_name && limited.tool_name == tool_name
            &&& denied.arguments == arguments && limited.arguments == arguments
            &&& denied.policy_hit == Some(rule_id) && limited.policy_hit == Some(rule_id)
            &&& denied.result is None && limited.result is None
            &&& denied.latency_ms is None && limited.latency_ms is None
            &&& denied.status == InvocationStatus::Denied
            &&& limited.status == InvocationStatus::RateLimited
            &&& limited == RecordView { status: InvocationStatus::RateLimited, ..denied }
        }),
{
}

/// A pending call is answered by the response that carries its id: after a
/// call is kept pending under the key of its request, a response whose id has the
/// same text finds it, takes it out of the table, and is recorded with the
/// call's tool and arguments, as an error exactly when the response is one.
pub proof fn lemma_pending_call_meets_its_response(
    id: Seq<char>,
    pending: Map<Seq<char>, PendingCallView>,
    req: JsonRpcRequest,
    call: PendingCallView,
    resp: JsonRpcResponse,
    server_name: Seq<char>,
    latency_ms: i64,
)
    requires
        resp.id@ == spec_id_key(opt_str(req.id)),
    ensures
        ({
            let awaiting = pending.insert(spec_id_key(opt_str(req.id)), call);
            let rec = completed_record_view(id, awaiting[resp.id@], resp, server_name, latency_ms);
            &&& awaiting.dom().contains(resp.id@)
            &&& awaiting.remove(resp.id@) == pending.remove(resp.id@)
            &&& rec.tool_name == call.tool_name
            &&& rec.arguments == call.arguments
            &&& rec.result == opt_json(resp.result)
            &&& rec.latency_ms == Some(latency_ms)
            &&& (rec.status == InvocationStatus::Error) == (resp.error is Some)
            &&& rec.policy_hit is None
        }),
{
    let awaiting = pending.insert(spec_id_key(opt_str(req.id)), call);
    assert(awaiting.remove(resp.id@) =~= pending.remove(resp.id@));
}

/// The code the gateway exits with once the wrapped server has exited:
/// none where the server succeeded, else the server's own code, or 1 where
/// it has none (it was killed by a signal).
pub fn child_exit_code(success: bool, code: Option<i32>) -> (r: Option<i32>)
    ensures
        r == if success {
            None
        } else {
            Some(
                match code {
                    Some(c) => c,
                    None => 1i32,
                },
            )
        },
{
    if success {
        None
    } else {
        match code {
            Some(c) => Some(c),
            None => Some(1),
        }
    }
}

/// The stdio proxy, configured.
#[derive(Debug)]
pub struct StdioProxy {
    config: AgentGateConfig,
}

impl StdioProxy {
    /// A proxy with the given configuration.
    pub fn new(config: AgentGateConfig) -> (r: StdioProxy)
        ensures
            r.config() == config,
    {
        StdioProxy { config }
    }

    /// The proxy's configuration.
    pub closed spec fn config(&self) -> AgentGateConfig {
        self.config
    }

    /// The proxy's configuration.
    pub fn get_config(&self) -> (r: &AgentGateConfig)
        ensures
            *r == self.config(),
    {
        &self.config
    }
}

} // verus!
