use agentgate::json::JsonValue;
use agentgate::jsonrpc::{classify_message, parse_i64, JsonRpcMessage};

fn s(x: &str) -> String {
    x.to_string()
}

fn obj(members: Vec<(&str, JsonValue)>) -> JsonValue {
    JsonValue::Object(members.into_iter().map(|(k, v)| (k.to_string(), v)).collect())
}

#[test]
fn integers_parse_like_as_i64() {
    assert_eq!(parse_i64("0"), Some(0));
    assert_eq!(parse_i64("-32603"), Some(-32603));
    assert_eq!(parse_i64("9223372036854775807"), Some(i64::MAX));
    assert_eq!(parse_i64("-9223372036854775808"), Some(i64::MIN));
    assert_eq!(parse_i64("9223372036854775808"), None);
    assert_eq!(parse_i64("123456789012345678901234567890"), None);
    assert_eq!(parse_i64("1.5"), None);
    assert_eq!(parse_i64("1e3"), None);
    assert_eq!(parse_i64("-"), None);
    assert_eq!(parse_i64(""), None);
}

#[test]
fn requests_notifications_and_responses() {
    let req = obj(vec![
        ("jsonrpc", JsonValue::Str(s("2.0"))),
        ("id", JsonValue::Number(s("5"))),
        ("method", JsonValue::Str(s("tools/call"))),
        ("params", obj(vec![("name", JsonValue::Str(s("read_file")))])),
    ]);
    match classify_message(&req, Some(s("5"))) {
        Some(JsonRpcMessage::Request(q)) => {
            assert_eq!((q.jsonrpc.as_str(), q.id.as_deref(), q.method.as_str()), ("2.0", Some("5"), "tools/call"));
            assert_eq!(q.params, Some(obj(vec![("name", JsonValue::Str(s("read_file")))])));
        },
        other => panic!("unexpected {other:?}"),
    }
    let null_id = obj(vec![("id", JsonValue::Null), ("method", JsonValue::Str(s("m")))]);
    match classify_message(&null_id, Some(s("null"))) {
        Some(JsonRpcMessage::Request(q)) => {
            assert_eq!(q.id, None);
            assert_eq!(q.jsonrpc, "2.0");
        },
        other => panic!("unexpected {other:?}"),
    }
    let note = obj(vec![("method", JsonValue::Str(s("notifications/x")))]);
    assert!(matches!(classify_message(&note, None), Some(JsonRpcMessage::Notification(_))));
    let resp = obj(vec![
        ("id", JsonValue::Str(s("a"))),
        ("error", obj(vec![("code", JsonValue::Number(s("-32000"))), ("message", JsonValue::Str(s("bad")))])),
    ]);
    match classify_message(&resp, Some(s("\"a\""))) {
        Some(JsonRpcMessage::Response(p)) => {
            assert_eq!(p.id, "\"a\"");
            assert!(p.result.is_none());
            let e = p.error.unwrap();
            assert_eq!((e.code, e.message.as_str()), (-32000, "bad"));
            assert!(e.data.is_none());
        },
        other => panic!("unexpected {other:?}"),
    }
    let no_id = obj(vec![("result", JsonValue::Null)]);
    match classify_message(&no_id, None) {
        Some(JsonRpcMessage::Response(p)) => assert_eq!(p.id, "null"),
        other => panic!("unexpected {other:?}"),
    }
}

#[test]
fn other_values_are_not_json_rpc() {
    assert!(classify_message(&JsonValue::Array(vec![]), None).is_none());
    assert!(classify_message(&obj(vec![("id", JsonValue::Number(s("1")))]), Some(s("1"))).is_none());
    // A non-string method is no method.
    assert!(classify_message(&obj(vec![("method", JsonValue::Number(s("1")))]), None).is_none());
}
