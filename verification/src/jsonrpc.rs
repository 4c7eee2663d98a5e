//! JSON-RPC 2.0 messages as the proxy handles them.
//!
//! The proxy never looks inside a message id: it echoes it in replies and uses
//! it to pair a response with its request.  An id is therefore held as the
//! compact JSON text of the `id` member (`1`, `"abc"`, ...), the form in which
//! two ids compare equal exactly when they are the same JSON value.
use crate::json::{JsonModel, JsonValue};
use vstd::prelude::*;
use vstd::string::*;

verus! {

/// The MCP method whose calls the proxy inspects.
pub open spec fn tools_call_method() -> Seq<char> {
    "tools/call"@
}

/// A request: a message with a method that expects a reply.
#[derive(Debug)]
pub struct JsonRpcRequest {
    pub jsonrpc: String,
    /// JSON text of the id; `None` where the id is absent or `null`.
    pub id: Option<String>,
    pub method: String,
    pub params: Option<JsonValue>,
}

/// The error member of a response.
#[derive(Debug)]
pub struct JsonRpcError {
    pub code: i64,
    pub message: String,
    pub data: Option<JsonValue>,
}

/// A response to a request.
#[derive(Debug)]
pub struct JsonRpcResponse {
    pub jsonrpc: String,
    /// JSON text of the id (`null` where the request had none).
    pub id: String,
    pub result: Option<JsonValue>,
    pub error: Option<JsonRpcError>,
}

/// A message without an id: it expects no reply.
#[derive(Debug)]
pub struct JsonRpcNotification {
    pub jsonrpc: String,
    pub method: String,
    pub params: Option<JsonValue>,
}

/// One JSON-RPC message.
#[derive(Debug)]
pub enum JsonRpcMessage {
    Request(JsonRpcRequest),
    Notification(JsonRpcNotification),
    Response(JsonRpcResponse),
}

/// The model of an optional JSON value.
pub open spec fn opt_json(o: Option<JsonValue>) -> Option<JsonModel> {
    match o {
        Some(v) => Some(v@),
        None => None,
    }
}

/// The model of an optional string.
pub open spec fn opt_str(o: Option<String>) -> Option<Seq<char>> {
    match o {
        Some(s) => Some(s@),
        None => None,
    }
}

/// The key under which a call with this id is kept pending: the id's text, or
/// `null` where there is none.
pub open spec fn spec_id_key(id: Option<Seq<char>>) -> Seq<char> {
    match id {
        Some(t) => t,
        None => "null"@,
    }
}

/// The tool name of a `tools/call`: the string member `name` of the
/// parameters, or `unknown`.
pub open spec fn spec_tool_name(params: Option<JsonModel>) -> Seq<char> {
    match params {
        Some(p) => match p.get("name"@) {
            Some(v) => match v.as_str() {
                Some(s) => s,
                None => "unknown"@,
            },
            None => "unknown"@,
        },
        None => "unknown"@,
    }
}

/// The arguments of a `tools/call`: the member `arguments` of the parameters.
pub open spec fn spec_tool_arguments(params: Option<JsonModel>) -> Option<JsonModel> {
    match params {
        Some(p) => p.get("arguments"@),
        None => None,
    }
}

/// The parameters of a `tools/call` after its arguments are replaced: absent
/// parameters become an object; parameters that are not an object stay as
/// they are.
pub open spec fn spec_params_with_arguments(params: Option<JsonModel>, arguments: JsonModel) -> JsonModel {
    match params {
        Some(p) => p.with_member("arguments"@, arguments),
        None => JsonModel::Object(Seq::empty()).with_member("arguments"@, arguments),
    }
}

/// The error response that answers a request with `id`.
pub open spec fn is_error_response(r: JsonRpcResponse, id: Option<Seq<char>>, code: i64, message: Seq<char>) -> bool {
    &&& r.jsonrpc@ == "2.0"@
    &&& r.id@ == spec_id_key(id)
    &&& r.result is None
    &&& r.error matches Some(e) && e.code == code && e.message@ == message && e.data is None
}

/// A copy of an optional string.
pub fn copy_opt_string(s: &Option<String>) -> (r: Option<String>)
    ensures
        opt_str(r) == opt_str(*s),
{
    match s {
        Some(t) => Some(t.clone()),
        None => None,
    }
}

/// A copy of an optional JSON value.
pub fn copy_opt_json(v: &Option<JsonValue>) -> (r: Option<JsonValue>)
    ensures
        opt_json(r) == opt_json(*v),
{
    match v {
        Some(x) => Some(x.clone_value()),
        None => None,
    }
}

/// The key that tracks a request until its response arrives.
pub fn id_key(req: &JsonRpcRequest) -> (r: String)
    ensures
        r@ == spec_id_key(opt_str(req.id)),
{
    match &req.id {
        Some(t) => t.clone(),
        None => String::from_str("null"),
    }
}

/// Whether a method name is `tools/call`.
pub fn is_tools_call(method: &String) -> (r: bool)
    ensures
        r == (method@ == tools_call_method()),
{
    *method == String::from_str("tools/call")
}

/// The tool name and arguments of a `tools/call` request.
pub fn extract_tool_call_params(req: &JsonRpcRequest) -> (r: (String, Option<JsonValue>))
    ensures
        r.0@ == spec_tool_name(opt_json(req.params)),
        opt_json(r.1) == spec_tool_arguments(opt_json(req.params)),
{
    match &req.params {
        None => (String::from_str("unknown"), None),
        Some(params) => {
            let name_key = String::from_str("name");
            let tool_name = match params.get(&name_key) {
                Some(v) => match v.as_str() {
                    Some(s) => s.clone(),
                    None => String::from_str("unknown"),
                },
                None => String::from_str("unknown"),
            };
            let arguments_key = String::from_str("arguments");
            let arguments = match params.get(&arguments_key) {
                Some(v) => Some(v.clone_value()),
                None => None,
            };
            (tool_name, arguments)
        },
    }
}

/// An error response to the request with `id`.
pub fn build_error_response(id: &Option<String>, code: i64, message: &str) -> (r: JsonRpcResponse)
    ensures
        is_error_response(r, opt_str(*id), code, message@),
{
    let id_text = match id {
        Some(t) => t.clone(),
        None => String::from_str("null"),
    };
    JsonRpcResponse {
        jsonrpc: String::from_str("2.0"),
        id: id_text,
        result: None,
        error: Some(JsonRpcError { code, message: String::from_str(message), data: None }),
    }
}

/// The request with its arguments replaced by `new_arguments`; everything else
/// is carried over.
pub fn rebuild_tools_call(original: &JsonRpcRequest, new_arguments: JsonValue) -> (r: JsonRpcRequest)
    ensures
        r.jsonrpc@ == original.jsonrpc@,
        opt_str(r.id) == opt_str(original.id),
        r.method@ == original.method@,
        opt_json(r.params) == Some(
            spec_params_with_arguments(opt_json(original.params), new_arguments@),
        ),
{
    let params = match &original.params {
        Some(p) => p.clone_value(),
        None => JsonValue::empty_object(),
    };
    let params = params.with_member(String::from_str("arguments"), new_arguments);
    JsonRpcRequest {
        jsonrpc: original.jsonrpc.clone(),
        id: copy_opt_string(&original.id),
        method: original.method.clone(),
        params: Some(params),
    }
}

/// The model of an optional error member.
pub open spec fn opt_error(e: Option<JsonRpcError>) -> Option<(i64, Seq<char>, Option<JsonModel>)> {
    match e {
        Some(x) => Some((x.code, x.message@, opt_json(x.data))),
        None => None,
    }
}

/// `r` is `resp` with its result replaced by `result`.
pub open spec fn is_response_with_result(r: JsonRpcResponse, resp: JsonRpcResponse, result: JsonModel) -> bool {
    &&& r.jsonrpc@ == resp.jsonrpc@
    &&& r.id@ == resp.id@
    &&& opt_json(r.result) == Some(result)
    &&& opt_error(r.error) == opt_error(resp.error)
}

/// The response with its result replaced by `result`; everything else is
/// carried over.
pub fn response_with_result(resp: &JsonRpcResponse, result: JsonValue) -> (r: JsonRpcResponse)
    ensures
        is_response_with_result(r, *resp, result@),
{
    let error = match &resp.error {
        Some(e) => Some(JsonRpcError { code: e.code, message: e.message.clone(), data: copy_opt_json(&e.data) }),
        None => None,
    };
    JsonRpcResponse { jsonrpc: resp.jsonrpc.clone(), id: resp.id.clone(), result: Some(result), error }
}

/// Redaction rewrites the arguments and nothing else a tool call is read by:
/// where the parameters are absent or an object, the call rebuilt with new
/// arguments names the same tool and carries exactly the new arguments.
pub proof fn lemma_rebuilt_call_reads_back(params: Option<JsonModel>, arguments: JsonModel)
    requires
        params matches Some(p) ==> p is Object,
    ensures
        spec_tool_arguments(Some(spec_params_with_arguments(params, arguments))) == Some(arguments),
        spec_tool_name(Some(spec_params_with_arguments(params, arguments))) == spec_tool_name(params),
{
    let ms = match params {
        Some(p) => p->Object_0,
        None => Seq::empty(),
    };
    reveal_strlit("name");
    reveal_strlit("arguments");
    assert("name"@ != "arguments"@) by {
        assert("name"@[0] != "arguments"@[0]);
    }
    crate::json::lemma_lookup_after_insert(ms, "arguments"@, arguments);
    crate::json::lemma_lookup_other_after_insert(ms, "arguments"@, "name"@, arguments);
    assert(crate::json::lookup(Seq::empty(), "name"@) is None);
}

/// A decimal digit.
pub open spec fn is_digit(c: char) -> bool {
    '0' <= c <= '9'
}

/// The value of a string of decimal digits.
pub open spec fn digits_value(s: Seq<char>) -> int
    decreases s.len(),
{
    if s.len() == 0 {
        0
    } else {
        digits_value(s.drop_last()) * 10 + (s.last() as int - '0' as int)
    }
}

/// Every character is a decimal digit.
pub open spec fn all_digits(s: Seq<char>) -> bool {
    forall|i: int| 0 <= i < s.len() ==> is_digit(#[trigger] s[i])
}

/// The text starts with `-`.
pub open spec fn is_negative_text(t: Seq<char>) -> bool {
    t.len() > 0 && t[0] == '-'
}

/// The text without its leading `-`.
pub open spec fn magnitude_text(t: Seq<char>) -> Seq<char> {
    if is_negative_text(t) {
        t.drop_first()
    } else {
        t
    }
}

/// What `serde_json`'s `as_i64` gives for a number written as `t`: the
/// integer, where `t` is an optional `-` and decimal digits and the value fits
/// an `i64`; nothing for a fraction, an exponent or a value out of range.
pub open spec fn spec_parse_i64(t: Seq<char>) -> Option<i64> {
    let ds = magnitude_text(t);
    if ds.len() > 0 && all_digits(ds) {
        let v = if is_negative_text(t) {
            -digits_value(ds)
        } else {
            digits_value(ds)
        };
        if i64::MIN <= v <= i64::MAX {
            Some(v as i64)
        } else {
            None
        }
    } else {
        None
    }
}

proof fn lemma_digits_value_nonneg(s: Seq<char>)
    requires
        forall|i: int| 0 <= i < s.len() ==> is_digit(#[trigger] s[i]),
    ensures
        digits_value(s) >= 0,
    decreases s.len(),
{
    if s.len() > 0 {
        lemma_digits_value_nonneg(s.drop_last());
    }
}

/// The integer a number's text stands for, where it is one that fits an `i64`.
pub fn parse_i64(t: &str) -> (r: Option<i64>)
    ensures
        r == spec_parse_i64(t@),
{
    let n = t.unicode_len();
    let neg = n > 0 && t.get_char(0) == '-';
    let st: usize = if neg { 1 } else { 0 };
    let ghost ds = magnitude_text(t@);
    assert(ds =~= t@.subrange(st as int, n as int));
    if st >= n {
        return None;
    }
    let bound: u128 = 0x8000_0000_0000_0000;
    let mut acc: u128 = 0;
    let mut over = false;
    let mut i: usize = st;
    while i < n
        invariant
            n == t@.len(),
            st <= i <= n,
            ds == t@.subrange(st as int, n as int),
            neg == is_negative_text(t@),
            ds == magnitude_text(t@),
            bound == 0x8000_0000_0000_0000u128,
            st == (if neg { 1usize } else { 0usize }),
            forall|j: int| 0 <= j < i - st ==> is_digit(#[trigger] ds[j]),
            !over ==> acc == digits_value(ds.take(i - st)) && acc <= bound,
            over ==> digits_value(ds.take(i - st)) > bound,
        decreases n - i,
    {
        let c = t.get_char(i);
        let ghost k = (i - st) as int;
        assert(ds[k] == c);
        if !('0' <= c && c <= '9') {
            assert(!is_digit(ds[k]));
            assert(!all_digits(ds));
            return None;
        }
        let d = (c as u32 - '0' as u32) as u128;
        assert(d <= 9);
        assert(d == c as int - '0' as int);
        proof {
            assert(ds.take(k + 1).drop_last() =~= ds.take(k));
            assert(ds.take(k + 1).last() == c);
            lemma_digits_value_nonneg(ds.take(k));
        }
        if !over {
            assert(acc <= bound);
            assert(acc * 10 <= bound * 10);
            let next = acc * 10 + d;
            if next > bound {
                over = true;
            } else {
                acc = next;
            }
        }
        i = i + 1;
    }
    assert(ds.take(n - st) =~= ds);
    if over {
        return None;
    }
    if neg {
        let v: i128 = 0i128 - acc as i128;
        Some(v as i64)
    } else if acc <= 0x7FFF_FFFF_FFFF_FFFF {
        Some(acc as i64)
    } else {
        None
    }
}

/// The string member `key` of a value, or `default`.
pub open spec fn str_member_or(m: JsonModel, key: Seq<char>, default: Seq<char>) -> Seq<char> {
    match m.get(key) {
        Some(v) => match v.as_str() {
            Some(s) => s,
            None => default,
        },
        None => default,
    }
}

/// The method of a message: its string member `method`.
pub open spec fn method_of(m: JsonModel) -> Option<Seq<char>> {
    match m.get("method"@) {
        Some(v) => v.as_str(),
        None => None,
    }
}

/// The code of an error member: its `code` where that is an integer that fits
/// an `i64`, else 0.
pub open spec fn error_code_of(c: Option<JsonModel>) -> i64 {
    match c {
        Some(JsonModel::Number(t)) => match spec_parse_i64(t) {
            Some(n) => n,
            None => 0,
        },
        _ => 0,
    }
}

/// The error of a response: an object member `error`, read as code, message
/// (empty where absent) and data.
pub open spec fn error_of(e: Option<JsonModel>) -> Option<(i64, Seq<char>, Option<JsonModel>)> {
    match e {
        Some(x) => if x is Object {
            Some((error_code_of(x.get("code"@)), str_member_or(x, "message"@, Seq::empty()), x.get("data"@)))
        } else {
            None
        },
        None => None,
    }
}

/// How a JSON-RPC message is read from a JSON value `m` whose `id` member,
/// where present, has the JSON text `id_text`:
/// - not an object: not JSON-RPC;
/// - a string `method` and an `id`: a request (a `null` id counts as none);
/// - a string `method` and no `id`: a notification;
/// - otherwise, a `result` or an `error`: a response (id `null` where absent);
/// - anything else: not JSON-RPC.
/// `jsonrpc` defaults to `2.0`.
pub open spec fn is_classified(r: Option<JsonRpcMessage>, m: JsonModel, id_text: Option<Seq<char>>) -> bool {
    let jsonrpc = str_member_or(m, "jsonrpc"@, "2.0"@);
    if !(m is Object) {
        r is None
    } else {
        match method_of(m) {
            Some(method) => match m.get("id"@) {
                Some(idv) => r matches Some(JsonRpcMessage::Request(q)) && q.jsonrpc@ == jsonrpc && q.method@
                    == method && opt_json(q.params) == m.get("params"@) && opt_str(q.id) == (if idv is Null {
                    None
                } else {
                    id_text
                }),
                None => r matches Some(JsonRpcMessage::Notification(n)) && n.jsonrpc@ == jsonrpc && n.method@
                    == method && opt_json(n.params) == m.get("params"@),
            },
            None => if m.get("result"@) is Some || m.get("error"@) is Some {
                r matches Some(JsonRpcMessage::Response(p)) && p.jsonrpc@ == jsonrpc && p.id@ == spec_id_key(
                    id_text,
                ) && opt_json(p.result) == m.get("result"@) && opt_error(p.error) == error_of(m.get("error"@))
            } else {
                r is None
            },
        }
    }
}

/// A response carries the JSON text of its `id` member whatever its other
/// members: an object with no `method` and with a `result` or an `error` is
/// read as a response whose id is that text, or `null` where it has no `id`.
pub proof fn lemma_response_id_is_its_id_text(r: Option<JsonRpcMessage>, m: JsonModel, id_text: Option<Seq<char>>)
    requires
        is_classified(r, m, id_text),
        m is Object,
        method_of(m) is None,
        m.get("result"@) is Some || m.get("error"@) is Some,
    ensures
        r matches Some(JsonRpcMessage::Response(p)) && match id_text {
            Some(t) => p.id@ == t,
            None => p.id@ == "null"@,
        },
{
}

/// A response answers the request that carried the same id: where a request
/// with a non-null `id` and a response (no `method`, a `result` or an
/// `error`) have the same id text, the response's id is the key under which
/// the request's call is kept pending.
pub proof fn lemma_response_meets_its_request(
    request: Option<JsonRpcMessage>,
    request_model: JsonModel,
    response: Option<JsonRpcMessage>,
    response_model: JsonModel,
    id_text: Seq<char>,
)
    requires
        is_classified(request, request_model, Some(id_text)),
        request_model is Object,
        method_of(request_model) is Some,
        request_model.get("id"@) matches Some(v) && !(v is Null),
        is_classified(response, response_model, Some(id_text)),
        response_model is Object,
        method_of(response_model) is None,
        response_model.get("result"@) is Some || response_model.get("error"@) is Some,
    ensures
        request matches Some(JsonRpcMessage::Request(q)) && response matches Some(JsonRpcMessage::Response(p))
            && p.id@ == id_text && p.id@ == spec_id_key(opt_str(q.id)),
{
}

/// A copy of member `key` of a value.
fn member_copy(v: &JsonValue, key: &str) -> (r: Option<JsonValue>)
    ensures
        opt_json(r) == v@.get(key@),
{
    match v.get(&String::from_str(key)) {
        Some(x) => Some(x.clone_value()),
        None => None,
    }
}

/// The string member `key` of a value, or `default`.
fn member_str_or(v: &JsonValue, key: &str, default: &str) -> (r: String)
    ensures
        r@ == str_member_or(v@, key@, default@),
{
    match v.get(&String::from_str(key)) {
        Some(x) => match x.as_str() {
            Some(s) => s.clone(),
            None => String::from_str(default),
        },
        None => String::from_str(default),
    }
}

/// The error of a response, read from its `error` member.
fn error_from(e: Option<&JsonValue>) -> (r: Option<JsonRpcError>)
    ensures
        opt_error(r) == error_of(
            match e {
                Some(x) => Some(x@),
                None => None,
            },
        ),
{
    match e {
        Some(x) => match x {
            JsonValue::Object(_) => {
                let code = match x.get(&String::from_str("code")) {
                    Some(JsonValue::Number(t)) => match parse_i64(t.as_str()) {
                        Some(n) => n,
                        None => 0,
                    },
                    _ => 0,
                };
                let message = member_str_or(x, "message", "");
                proof {
                    reveal_strlit("");
                }
                let data = member_copy(x, "data");
                Some(JsonRpcError { code, message, data })
            },
            _ => None,
        },
        None => None,
    }
}

/// Reads a JSON-RPC message from a parsed JSON value; `id_text` is the JSON
/// text of its `id` member, where it has one.
pub fn classify_message(v: &JsonValue, id_text: Option<String>) -> (r: Option<JsonRpcMessage>)
    ensures
        is_classified(r, v@, opt_str(id_text)),
        v@ is Object && method_of(v@) is None && (v@.get("result"@) is Some || v@.get("error"@) is Some) ==> (r matches Some(
            JsonRpcMessage::Response(p),
        ) && p.id@ == spec_id_key(opt_str(id_text))),
{
    match v {
        JsonValue::Object(_) => {},
        _ => {
            return None;
        },
    }
    let jsonrpc = member_str_or(v, "jsonrpc", "2.0");
    let params = member_copy(v, "params");
    let method = match v.get(&String::from_str("method")) {
        Some(m) => match m.as_str() {
            Some(s) => Some(s.clone()),
            None => None,
        },
        None => None,
    };
    match method {
        Some(method) => match v.get(&String::from_str("id")) {
            Some(idv) => {
                let id = match idv {
                    JsonValue::Null => None,
                    _ => id_text,
                };
                Some(JsonRpcMessage::Request(JsonRpcRequest { jsonrpc, id, method, params }))
            },
            None => Some(JsonRpcMessage::Notification(JsonRpcNotification { jsonrpc, method, params })),
        },
        None => {
            let result = member_copy(v, "result");
            let error_member = v.get(&String::from_str("error"));
            if result.is_none() && error_member.is_none() {
                return None;
            }
            let error = error_from(error_member);
            let id = match id_text {
                Some(t) => t,
                None => String::from_str("null"),
            };
            Some(JsonRpcMessage::Response(JsonRpcResponse { jsonrpc, id, result, error }))
        },
    }
}

} // verus!
