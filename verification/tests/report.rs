use agentgate::json::JsonValue;
use agentgate::proxy::{denied_record, rate_limited_record, InvocationStatus};
use agentgate::report::{format_decimal, invocation_row, invocation_rows, matches_filter};

#[test]
fn decimal_formatting() {
    assert_eq!(format_decimal(0), "0");
    assert_eq!(format_decimal(9), "9");
    assert_eq!(format_decimal(1234), "1234");
    assert_eq!(format_decimal(-56), "-56");
    assert_eq!(format_decimal(i64::MAX), i64::MAX.to_string());
    assert_eq!(format_decimal(i64::MIN), i64::MIN.to_string());
}

#[test]
fn rows_show_dashes_for_missing_values() {
    let mut r = denied_record("bash", None, "fs", "no-shell");
    let row = invocation_row(&r, "2026-04-03 09:01:14");
    assert_eq!(row.timestamp, "2026-04-03 09:01:14");
    assert_eq!(row.server_name, "fs");
    assert_eq!(row.tool_name, "bash");
    assert_eq!(row.status, "denied");
    assert_eq!(row.latency_ms, "-");
    assert_eq!(row.policy_hit, "no-shell");
    r.latency_ms = Some(9);
    r.policy_hit = None;
    r.status = InvocationStatus::Allowed;
    let row = invocation_row(&r, "t");
    assert_eq!((row.latency_ms.as_str(), row.policy_hit.as_str(), row.status.as_str()), ("9", "-", "allowed"));
}

#[test]
fn rows_keep_record_order() {
    let records = vec![
        (denied_record("a", None, "fs", "r"), "t1".to_string()),
        (rate_limited_record("b", Some(JsonValue::Null), "fs", "r"), "t2".to_string()),
    ];
    let rows = invocation_rows(&records);
    assert_eq!(rows.len(), 2);
    assert_eq!((rows[0].tool_name.as_str(), rows[0].timestamp.as_str()), ("a", "t1"));
    assert_eq!((rows[1].tool_name.as_str(), rows[1].status.as_str()), ("b", "rate_limited"));
}

#[test]
fn filters_by_tool_and_status() {
    let r = denied_record("bash", None, "fs", "x");
    assert!(matches_filter(&r, None, None));
    assert!(matches_filter(&r, Some("bash"), Some("denied")));
    assert!(!matches_filter(&r, Some("read_file"), None));
    assert!(!matches_filter(&r, None, Some("allowed")));
}
