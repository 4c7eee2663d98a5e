//! The table of stored invocations that `agentgate logs` prints.
use crate::ids::{hex_digit, hex_digits};
use crate::proxy::{status_name, InvocationRecord};
use vstd::prelude::*;
use vstd::string::*;

verus! {

/// The decimal digits of a natural number.
pub open spec fn decimal_digits(n: nat) -> Seq<char>
    decreases n,
{
    if n < 10 {
        seq![hex_digits()[n as int]]
    } else {
        decimal_digits(n / 10) + seq![hex_digits()[(n % 10) as int]]
    }
}

/// An integer in decimal, with a leading `-` where it is negative.
pub open spec fn decimal(n: int) -> Seq<char> {
    if n < 0 {
        seq!['-'] + decimal_digits((-n) as nat)
    } else {
        decimal_digits(n as nat)
    }
}

/// Appends the decimal digits of `n`.
fn append_digits(s: &mut String, n: u64)
    ensures
        final(s)@ == old(s)@ + decimal_digits(n as nat),
    decreases n,
{
    if n >= 10 {
        append_digits(s, n / 10);
    }
    let d = (n % 10) as u8;
    s.append(hex_digit(d));
    proof {
        assert(final(s)@ =~= old(s)@ + decimal_digits(n as nat)) by {
            if n >= 10 {
                assert(decimal_digits(n as nat) == decimal_digits((n / 10) as nat) + seq![hex_digits()[(n % 10) as int]]);
            }
        }
    }
}

/// An integer in decimal.
pub fn format_decimal(n: i64) -> (r: String)
    ensures
        r@ == decimal(n as int),
{
    let mut r = String::new();
    if n < 0 {
        r.append("-");
        proof {
            reveal_strlit("-");
        }
        let m: u64 = (0i128 - n as i128) as u64;
        append_digits(&mut r, m);
        assert(r@ =~= seq!['-'] + decimal_digits((-n) as nat));
    } else {
        append_digits(&mut r, n as u64);
        assert(r@ =~= decimal_digits(n as nat));
    }
    r
}

/// One row of the table.
#[derive(Debug)]
pub struct InvocationRow {
    pub timestamp: String,
    pub server_name: String,
    pub tool_name: String,
    pub status: String,
    pub latency_ms: String,
    pub policy_hit: String,
}

/// `r` is the row of `record`, stored at `timestamp`: a missing latency or
/// policy hit shows as `-`.
pub open spec fn is_row(r: InvocationRow, record: InvocationRecord, timestamp: Seq<char>) -> bool {
    &&& r.timestamp@ == timestamp
    &&& r.server_name@ == record.server_name@
    &&& r.tool_name@ == record.tool_name@
    &&& r.status@ == status_name(record.status)
    &&& r.latency_ms@ == match record.latency_ms {
        Some(l) => decimal(l as int),
        None => "-"@,
    }
    &&& r.policy_hit@ == match record.policy_hit {
        Some(p) => p@,
        None => "-"@,
    }
}

/// The row of a record stored at `timestamp` (already formatted).
pub fn invocation_row(record: &InvocationRecord, timestamp: &str) -> (r: InvocationRow)
    ensures
        is_row(r, *record, timestamp@),
        r.status@ == status_name(record.status),
        r.server_name@ == record.server_name@,
{
    InvocationRow {
        timestamp: String::from_str(timestamp),
        server_name: record.server_name.clone(),
        tool_name: record.tool_name.clone(),
        status: String::from_str(record.status.as_str()),
        latency_ms: match record.latency_ms {
            Some(l) => format_decimal(l),
            None => String::from_str("-"),
        },
        policy_hit: match &record.policy_hit {
            Some(p) => p.clone(),
            None => String::from_str("-"),
        },
    }
}

/// The rows of stored records, each with its formatted timestamp, in order.
pub fn invocation_rows(records: &Vec<(InvocationRecord, String)>) -> (r: Vec<InvocationRow>)
    ensures
        r@.len() == records@.len(),
        forall|i: int| 0 <= i < r@.len() ==> is_row(#[trigger] r@[i], records@[i].0, records@[i].1@),
{
    let mut rows: Vec<InvocationRow> = Vec::new();
    let mut i: usize = 0;
    while i < records.len()
        invariant
            i <= records@.len(),
            rows@.len() == i,
            forall|j: int| 0 <= j < i ==> is_row(#[trigger] rows@[j], records@[j].0, records@[j].1@),
        decreases records@.len() - i,
    {
        let row = invocation_row(&records[i].0, records[i].1.as_str());
        rows.push(row);
        i = i + 1;
    }
    rows
}

/// Whether a record passes the filters of `agentgate logs`: its tool and its
/// status name equal those asked for, where asked for.
pub fn matches_filter(record: &InvocationRecord, tool: Option<&str>, status: Option<&str>) -> (r: bool)
    ensures
        r == ((tool matches Some(t) ==> record.tool_name@ == t@) && (status matches Some(st) ==> status_name(
            record.status,
        ) == st@)),
{
    let tool_ok = match tool {
        Some(t) => record.tool_name == String::from_str(t),
        None => true,
    };
    let status_ok = match status {
        Some(st) => String::from_str(record.status.as_str()) == String::from_str(st),
        None => true,
    };
    tool_ok && status_ok
}

/// The Status column of a row is its record's status by name: `allowed`,
/// `denied`, `error` (a call the server answered with an error) or
/// `rate_limited`.
pub proof fn lemma_row_status_column(r: InvocationRow, record: InvocationRecord, timestamp: Seq<char>)
    requires
        is_row(r, record, timestamp),
    ensures
        record.status is Allowed ==> r.status@ == "allowed"@,
        record.status is Denied ==> r.status@ == "denied"@,
        record.status is Error ==> r.status@ == "error"@,
        record.status is RateLimited ==> r.status@ == "rate_limited"@,
{
}

/// Rows tell statuses apart: two rows whose Status columns read the same are
/// of records with the same status.
pub proof fn lemma_row_status_tells_statuses_apart(
    r1: InvocationRow,
    record1: InvocationRecord,
    timestamp1: Seq<char>,
    r2: InvocationRow,
    record2: InvocationRecord,
    timestamp2: Seq<char>,
)
    requires
        is_row(r1, record1, timestamp1),
        is_row(r2, record2, timestamp2),
        r1.status@ == r2.status@,
    ensures
        record1.status == record2.status,
{
    reveal_strlit("allowed");
    reveal_strlit("denied");
    reveal_strlit("error");
    reveal_strlit("rate_limited");
    assert(status_name(record1.status).len() == status_name(record2.status).len());
}

/// The status filter of `agentgate logs` keeps a record exactly when the
/// status asked for is what its row shows in the Status column.
pub proof fn lemma_status_filter_agrees_with_row(
    r: InvocationRow,
    record: InvocationRecord,
    timestamp: Seq<char>,
    status: Seq<char>,
)
    requires
        is_row(r, record, timestamp),
    ensures
        (status_name(record.status) == status) == (r.status@ == status),
{
}

} // verus!
