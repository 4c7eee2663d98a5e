use agentgate::config::AgentGateConfig;
use agentgate::json::JsonValue;
use agentgate::jsonrpc::{
    build_error_response, extract_tool_call_params, id_key, rebuild_tools_call, JsonRpcMessage,
    JsonRpcNotification, JsonRpcRequest, JsonRpcResponse, JsonRpcError,
};
use agentgate::pending::{PendingCall, PendingCalls};
use agentgate::policy::PolicyDecision;
use agentgate::proxy::{
    admit_tool_call, child_exit_code, completed_record, denied_record, flush_pending_call, rate_limited_record,
    answered_tool, drain_pending, plan_inbound, settle_response, tool_call_of, InboundAction,
    InboundPlan, InvocationStatus, ResponsePlan, StdioProxy,
};

fn s(x: &str) -> String {
    x.to_string()
}

fn obj(members: Vec<(&str, JsonValue)>) -> JsonValue {
    JsonValue::Object(members.into_iter().map(|(k, v)| (k.to_string(), v)).collect())
}

fn call_request(id: Option<&str>, params: Option<JsonValue>) -> JsonRpcRequest {
    JsonRpcRequest { jsonrpc: s("2.0"), id: id.map(s), method: s("tools/call"), params }
}

fn args() -> JsonValue {
    obj(vec![("command", JsonValue::Str(s("rm -rf /")))])
}

fn response(id: &str, error: bool) -> JsonRpcResponse {
    JsonRpcResponse {
        jsonrpc: s("2.0"),
        id: s(id),
        result: if error { None } else { Some(JsonValue::Str(s("done"))) },
        error: if error {
            Some(JsonRpcError { code: -1, message: s("boom"), data: None })
        } else {
            None
        },
    }
}

#[test]
fn id_key_uses_id_text_or_null() {
    assert_eq!(id_key(&call_request(Some("7"), None)), "7");
    assert_eq!(id_key(&call_request(Some("\"abc\""), None)), "\"abc\"");
    assert_eq!(id_key(&call_request(None, None)), "null");
}

#[test]
fn extract_reads_name_and_arguments() {
    let req = call_request(Some("1"), Some(obj(vec![("name", JsonValue::Str(s("bash"))), ("arguments", args())])));
    assert_eq!(extract_tool_call_params(&req), (s("bash"), Some(args())));
}

#[test]
fn extract_falls_back_to_unknown() {
    assert_eq!(extract_tool_call_params(&call_request(Some("1"), None)), (s("unknown"), None));
    let not_a_string = call_request(Some("1"), Some(obj(vec![("name", JsonValue::Number(s("3")))])));
    assert_eq!(extract_tool_call_params(&not_a_string), (s("unknown"), None));
    let not_an_object = call_request(Some("1"), Some(JsonValue::Array(vec![])));
    assert_eq!(extract_tool_call_params(&not_an_object), (s("unknown"), None));
}

#[test]
fn error_response_shape() {
    let r = build_error_response(&Some(s("5")), -32603, "nope");
    assert_eq!(r.jsonrpc, "2.0");
    assert_eq!(r.id, "5");
    assert!(r.result.is_none());
    let e = r.error.unwrap();
    assert_eq!((e.code, e.message.as_str()), (-32603, "nope"));
    assert!(e.data.is_none());
    assert_eq!(build_error_response(&None, 1, "x").id, "null");
}

#[test]
fn rebuild_replaces_only_arguments() {
    let req = call_request(Some("9"), Some(obj(vec![("name", JsonValue::Str(s("bash"))), ("arguments", args())])));
    let redacted = obj(vec![("command", JsonValue::Str(s("[REDACTED]")))]);
    let r = rebuild_tools_call(&req, redacted.clone_value());
    assert_eq!(r.jsonrpc, "2.0");
    assert_eq!(r.id, Some(s("9")));
    assert_eq!(r.method, "tools/call");
    assert_eq!(r.params, Some(obj(vec![("name", JsonValue::Str(s("bash"))), ("arguments", redacted.clone_value())])));
    // The rebuilt call reads back the same tool and the new arguments.
    assert_eq!(extract_tool_call_params(&r), (s("bash"), Some(redacted)));
}

#[test]
fn rebuild_without_params_makes_an_object() {
    let r = rebuild_tools_call(&call_request(None, None), JsonValue::Null);
    assert_eq!(r.params, Some(obj(vec![("arguments", JsonValue::Null)])));
    assert_eq!(r.id, None);
}

#[test]
fn tool_call_of_only_tools_call_requests() {
    let req = call_request(Some("1"), Some(obj(vec![("name", JsonValue::Str(s("read_file")))])));
    assert_eq!(tool_call_of(&JsonRpcMessage::Request(req)), Some((s("read_file"), None)));
    let other = JsonRpcRequest { jsonrpc: s("2.0"), id: Some(s("1")), method: s("tools/list"), params: None };
    assert_eq!(tool_call_of(&JsonRpcMessage::Request(other)), None);
    let note = JsonRpcNotification { jsonrpc: s("2.0"), method: s("tools/call"), params: None };
    assert_eq!(tool_call_of(&JsonRpcMessage::Notification(note)), None);
    assert_eq!(tool_call_of(&JsonRpcMessage::Response(response("1", false))), None);
}

#[test]
fn deny_answers_and_records_without_forwarding() {
    let mut pending = PendingCalls::new();
    let req = call_request(Some("3"), None);
    let decision = Some(PolicyDecision::Deny { rule_id: s("no-shell"), message: s("Shell is not permitted") });
    match admit_tool_call(&mut pending, &req, s("bash"), Some(args()), decision, "fs", std::time::Instant::now()) {
        InboundAction::Reject { response, record } => {
            assert_eq!(response.id, "3");
            let e = response.error.unwrap();
            assert_eq!(e.code, -32603);
            assert_eq!(e.message, "Shell is not permitted");
            assert_eq!(record.status, InvocationStatus::Denied);
            assert_eq!(record.policy_hit, Some(s("no-shell")));
            assert_eq!(record.tool_name, "bash");
            assert_eq!(record.server_name, "fs");
            assert_eq!(record.arguments, Some(args()));
            assert!(record.latency_ms.is_none() && record.result.is_none());
        },
        other => panic!("unexpected {other:?}"),
    }
    assert_eq!(pending.len(), 0);
}

#[test]
fn rate_limit_answers_with_its_code_and_message() {
    let mut pending = PendingCalls::new();
    let req = call_request(None, None);
    let decision = Some(PolicyDecision::RateLimited { rule_id: s("api-rate-limit") });
    match admit_tool_call(&mut pending, &req, s("http_request"), None, decision, "fs", std::time::Instant::now()) {
        InboundAction::Reject { response, record } => {
            assert_eq!(response.id, "null");
            let e = response.error.unwrap();
            assert_eq!(e.code, -32029);
            assert_eq!(e.message, "Rate limit exceeded for rule 'api-rate-limit'");
            assert_eq!(record.status, InvocationStatus::RateLimited);
            assert_eq!(record.policy_hit, Some(s("api-rate-limit")));
        },
        other => panic!("unexpected {other:?}"),
    }
    assert_eq!(pending.len(), 0);
}

#[test]
fn allowed_call_is_kept_until_its_response() {
    let mut pending = PendingCalls::new();
    let req = call_request(Some("11"), None);
    for decision in [None, Some(PolicyDecision::Allow)] {
        let a = admit_tool_call(&mut pending, &req, s("read_file"), Some(args()), decision, "fs", std::time::Instant::now());
        assert!(matches!(a, InboundAction::ForwardLine));
        assert_eq!(pending.len(), 1);
    }
    // A response to another id finds nothing.
    assert!(flush_pending_call(&JsonRpcMessage::Response(response("12", false)), &mut pending, "fs").is_none());
    assert_eq!(pending.len(), 1);
    let rec = flush_pending_call(&JsonRpcMessage::Response(response("11", false)), &mut pending, "fs").unwrap();
    assert_eq!(rec.tool_name, "read_file");
    assert_eq!(rec.arguments, Some(args()));
    assert_eq!(rec.result, Some(JsonValue::Str(s("done"))));
    assert_eq!(rec.status, InvocationStatus::Allowed);
    assert!(rec.latency_ms.unwrap() >= 0);
    assert!(rec.policy_hit.is_none());
    assert_eq!(pending.len(), 0);
    // Answered once only.
    assert!(flush_pending_call(&JsonRpcMessage::Response(response("11", false)), &mut pending, "fs").is_none());
}

#[test]
fn error_response_records_an_error() {
    let mut pending = PendingCalls::new();
    let req = call_request(Some("\"x\""), None);
    admit_tool_call(&mut pending, &req, s("t"), None, None, "srv", std::time::Instant::now());
    let rec = flush_pending_call(&JsonRpcMessage::Response(response("\"x\"", true)), &mut pending, "srv").unwrap();
    assert_eq!(rec.status, InvocationStatus::Error);
    assert!(rec.result.is_none());
    assert_eq!(rec.server_name, "srv");
}

#[test]
fn redact_forwards_rewritten_call_and_keeps_redacted_arguments() {
    let mut pending = PendingCalls::new();
    let params = obj(vec![("name", JsonValue::Str(s("bash"))), ("arguments", args())]);
    let req = call_request(Some("4"), Some(params));
    let redacted = obj(vec![("command", JsonValue::Str(s("[REDACTED]")))]);
    let decision = Some(PolicyDecision::Redact { rule_id: s("redact-secrets"), arguments: redacted.clone_value() });
    match admit_tool_call(&mut pending, &req, s("bash"), Some(args()), decision, "fs", std::time::Instant::now()) {
        InboundAction::ForwardRequest(f) => {
            assert_eq!(f.id, Some(s("4")));
            assert_eq!(extract_tool_call_params(&f), (s("bash"), Some(redacted.clone_value())));
        },
        other => panic!("unexpected {other:?}"),
    }
    let rec = flush_pending_call(&JsonRpcMessage::Response(response("4", false)), &mut pending, "fs").unwrap();
    assert_eq!(rec.arguments, Some(redacted));
}

#[test]
fn notifications_and_requests_do_not_flush() {
    let mut pending = PendingCalls::new();
    admit_tool_call(&mut pending, &call_request(Some("1"), None), s("t"), None, None, "fs", std::time::Instant::now());
    let note = JsonRpcNotification { jsonrpc: s("2.0"), method: s("x"), params: None };
    assert!(flush_pending_call(&JsonRpcMessage::Notification(note), &mut pending, "fs").is_none());
    assert!(flush_pending_call(&JsonRpcMessage::Request(call_request(Some("1"), None)), &mut pending, "fs").is_none());
    assert_eq!(pending.len(), 1);
}

#[test]
fn records_of_blocked_calls() {
    let d = denied_record("bash", None, "fs", "r1");
    assert_eq!((d.status, d.policy_hit.as_deref(), d.tool_name.as_str()), (InvocationStatus::Denied, Some("r1"), "bash"));
    let r = rate_limited_record("bash", Some(JsonValue::Null), "fs", "r2");
    assert_eq!((r.status, r.policy_hit.as_deref()), (InvocationStatus::RateLimited, Some("r2")));
    assert_eq!(r.arguments, Some(JsonValue::Null));
    assert!(d.agent_id.is_none() && d.session_id.is_none());
}

#[test]
fn completed_record_carries_latency() {
    let call = PendingCall { tool_name: s("t"), arguments: None, started_at: std::time::Instant::now() };
    let rec = completed_record(call, &response("1", false), "fs", 42);
    assert_eq!(rec.latency_ms, Some(42));
    assert_eq!(rec.status, InvocationStatus::Allowed);
}

#[test]
fn status_names() {
    assert_eq!(InvocationStatus::Allowed.as_str(), "allowed");
    assert_eq!(InvocationStatus::Denied.as_str(), "denied");
    assert_eq!(InvocationStatus::Error.as_str(), "error");
    assert_eq!(InvocationStatus::RateLimited.as_str(), "rate_limited");
}

#[test]
fn proxy_keeps_its_config() {
    let p = StdioProxy::new(AgentGateConfig::default_for_home(None));
    assert_eq!(p.get_config().db_path, "/tmp/.agentgate/logs.db");
}

#[test]
fn exit_code_follows_the_child() {
    assert_eq!(child_exit_code(true, Some(0)), None);
    assert_eq!(child_exit_code(false, Some(3)), Some(3));
    assert_eq!(child_exit_code(false, None), Some(1));
}

#[test]
fn pending_table_replaces_and_takes_back() {
    let mut p = PendingCalls::new();
    p.insert(s("1"), PendingCall { tool_name: s("a"), arguments: None, started_at: std::time::Instant::now() });
    p.insert(s("2"), PendingCall { tool_name: s("b"), arguments: None, started_at: std::time::Instant::now() });
    p.insert(s("1"), PendingCall { tool_name: s("c"), arguments: Some(JsonValue::Null), started_at: std::time::Instant::now() });
    assert_eq!(p.len(), 2);
    let c = p.remove(&s("1")).unwrap();
    assert_eq!((c.tool_name.as_str(), c.arguments), ("c", Some(JsonValue::Null)));
    assert!(p.remove(&s("1")).is_none());
    assert_eq!(p.remove(&s("2")).unwrap().tool_name, "b");
    assert_eq!(p.len(), 0);
}

#[test]
fn inbound_lines_are_planned() {
    let req = call_request(Some("1"), Some(obj(vec![("name", JsonValue::Str(s("bash")))])));
    let msg = JsonRpcMessage::Request(req);
    assert!(matches!(plan_inbound("", Some(&msg)), InboundPlan::Skip));
    assert!(matches!(plan_inbound("not json", None), InboundPlan::ForwardLine));
    match plan_inbound("{...}", Some(&msg)) {
        InboundPlan::SettleToolCall { tool_name, arguments } => {
            assert_eq!(tool_name, "bash");
            assert!(arguments.is_none());
        },
        other => panic!("unexpected {other:?}"),
    }
    let list = JsonRpcMessage::Request(JsonRpcRequest { jsonrpc: s("2.0"), id: Some(s("2")), method: s("tools/list"), params: None });
    assert!(matches!(plan_inbound("{...}", Some(&list)), InboundPlan::ForwardLine));
}

#[test]
fn server_lines_are_forwarded_and_complete_calls() {
    let mut pending = PendingCalls::new();
    admit_tool_call(&mut pending, &call_request(Some("5"), None), s("t"), None, None, "fs", std::time::Instant::now());
    let resp = JsonRpcMessage::Response(response("5", false));
    assert!(matches!(settle_response("", Some(&resp), None, &mut pending, "fs"), ResponsePlan::Skip));
    assert_eq!(pending.len(), 1);
    assert!(matches!(settle_response("garbage", None, None, &mut pending, "fs"), ResponsePlan::ForwardLine(None)));
    match settle_response("{...}", Some(&resp), None, &mut pending, "fs") {
        ResponsePlan::ForwardLine(Some(rec)) => assert_eq!(rec.tool_name, "t"),
        other => panic!("unexpected {other:?}"),
    }
    assert_eq!(pending.len(), 0);
}

fn is_uuid_v4_text(t: &str) -> bool {
    let b = t.as_bytes();
    t.len() == 36
        && [8, 13, 18, 23].iter().all(|&i| b[i] == b'-')
        && t.chars().enumerate().all(|(i, c)| [8, 13, 18, 23].contains(&i) || c.is_ascii_digit() || ('a'..='f').contains(&c))
        && b[14] == b'4'
        && matches!(b[19], b'8' | b'9' | b'a' | b'b')
}

#[test]
fn records_carry_fresh_uuid_ids() {
    let d = denied_record("bash", None, "fs", "r1");
    let r = rate_limited_record("bash", None, "fs", "r1");
    assert!(is_uuid_v4_text(&d.id));
    assert!(is_uuid_v4_text(&r.id));
    assert_ne!(d.id, r.id);
    let call = PendingCall { tool_name: s("t"), arguments: None, started_at: std::time::Instant::now() };
    let c = completed_record(call, &response("1", false), "fs", 1);
    assert!(is_uuid_v4_text(&c.id));
}

#[test]
fn unanswered_calls_are_recorded_when_drained() {
    let mut pending = PendingCalls::new();
    admit_tool_call(&mut pending, &call_request(Some("5"), None), s("read_file"), Some(args()), None, "fs", std::time::Instant::now());
    admit_tool_call(&mut pending, &call_request(Some("6"), None), s("write_file"), None, None, "fs", std::time::Instant::now());
    let mut recs = drain_pending(&mut pending, "fs");
    assert_eq!(pending.len(), 0);
    assert_eq!(recs.len(), 2);
    recs.sort_by(|a, b| a.tool_name.cmp(&b.tool_name));
    assert_eq!(recs[0].tool_name, "read_file");
    assert_eq!(recs[0].arguments, Some(args()));
    assert_eq!(recs[1].tool_name, "write_file");
    for r in &recs {
        assert_eq!(r.status, InvocationStatus::Error);
        assert_eq!(r.server_name, "fs");
        assert!(r.result.is_none() && r.policy_hit.is_none());
        assert!(r.latency_ms.unwrap() >= 0);
        assert!(is_uuid_v4_text(&r.id));
    }
    assert!(drain_pending(&mut pending, "fs").is_empty());
}

#[test]
fn scrubbed_results_replace_the_server_result() {
    let mut pending = PendingCalls::new();
    admit_tool_call(&mut pending, &call_request(Some("8"), None), s("cat"), None, None, "fs", std::time::Instant::now());
    let resp = JsonRpcMessage::Response(response("8", false));
    assert_eq!(answered_tool(&resp, &pending), Some(s("cat")));
    assert_eq!(answered_tool(&JsonRpcMessage::Response(response("9", false)), &pending), None);
    let scrubbed = JsonValue::Str(s("[REDACTED]"));
    match settle_response("{...}", Some(&resp), Some(scrubbed.clone_value()), &mut pending, "fs") {
        ResponsePlan::ForwardResponse(f, Some(rec)) => {
            assert_eq!(f.id, "8");
            assert_eq!(f.jsonrpc, "2.0");
            assert_eq!(f.result, Some(scrubbed.clone_value()));
            assert!(f.error.is_none());
            assert_eq!(rec.result, Some(scrubbed));
            assert_eq!(rec.tool_name, "cat");
        },
        other => panic!("unexpected {other:?}"),
    }
    assert_eq!(pending.len(), 0);
}
